use core::any::Any;
use struct_index::{struct_index, Delimiter, Group, TokenTree};

fn ident(text: &str) -> TokenTree {
    TokenTree::Ident(text.to_string())
}

fn punct(c: char) -> TokenTree {
    TokenTree::Punct(c)
}

/// `struct Student { id: i64, name: String }`
fn student_declaration() -> Vec<TokenTree> {
    vec![
        ident("struct"),
        ident("Student"),
        TokenTree::Group(Group {
            delimiter: Delimiter::Brace,
            text: "{ id : i64, name : String }".to_string(),
            stream: vec![
                ident("id"),
                punct(':'),
                ident("i64"),
                punct(','),
                ident("name"),
                punct(':'),
                ident("String"),
            ],
        }),
    ]
}

/// `struct Point(i32, i32);`
fn point_declaration() -> Vec<TokenTree> {
    vec![
        ident("struct"),
        ident("Point"),
        TokenTree::Group(Group {
            delimiter: Delimiter::Parenthesis,
            text: "(i32, i32)".to_string(),
            stream: vec![ident("i32"), punct(','), ident("i32")],
        }),
        punct(';'),
    ]
}

/// `struct Empty {}`
fn empty_declaration() -> Vec<TokenTree> {
    vec![
        ident("struct"),
        ident("Empty"),
        TokenTree::Group(Group {
            delimiter: Delimiter::Brace,
            text: "{}".to_string(),
            stream: Vec::new(),
        }),
    ]
}

const STUDENT_TEXT: &str = "
        impl  core::ops::Not for &Student   {
            type Output = (&'static str, &'static [&'static str]);

            /// return (structure name, field names)
            fn not(self) -> Self::Output {
                (\"Student\", &[\"id\",\"name\"])
            }
        }

        impl  core::ops::Index<usize> for Student   {
            type Output = dyn core::any::Any;

            fn index(&self, index: usize) -> &Self::Output {
                ([&self.id,&self.name] as [&Self::Output; 2])[index]
            }
        }

        impl  core::ops::IndexMut<usize> for Student   {
            fn index_mut(&mut self, index: usize) -> &mut Self::Output {
                ([&mut self.id,&mut self.name] as [&mut Self::Output; 2])[index]
            }
        }
        ";

const POINT_TEXT: &str = "
        impl  core::ops::Not for &Point   {
            type Output = (&'static str, &'static [&'static str]);

            /// return (structure name, field names)
            fn not(self) -> Self::Output {
                (\"Point\", &[\"0\",\"1\"])
            }
        }

        impl  core::ops::Index<usize> for Point   {
            type Output = dyn core::any::Any;

            fn index(&self, index: usize) -> &Self::Output {
                ([&self.0,&self.1] as [&Self::Output; 2])[index]
            }
        }

        impl  core::ops::IndexMut<usize> for Point   {
            fn index_mut(&mut self, index: usize) -> &mut Self::Output {
                ([&mut self.0,&mut self.1] as [&mut Self::Output; 2])[index]
            }
        }
        ";

const EMPTY_TEXT: &str = "
        impl  core::ops::Not for &Empty   {
            type Output = (&'static str, &'static [&'static str]);

            /// return (structure name, field names)
            fn not(self) -> Self::Output {
                (\"Empty\", &[])
            }
        }

        impl  core::ops::Index<usize> for Empty   {
            type Output = dyn core::any::Any;

            fn index(&self, index: usize) -> &Self::Output {
                ([] as [&Self::Output; 0])[index]
            }
        }

        impl  core::ops::IndexMut<usize> for Empty   {
            fn index_mut(&mut self, index: usize) -> &mut Self::Output {
                ([] as [&mut Self::Output; 0])[index]
            }
        }
        ";

// The three structures below carry, as code, the implementations whose text stands in the
// constants above: the tests that follow run what the generator writes.

#[derive(Default)]
struct Student {
    id: i64,
    name: String,
}

        impl  core::ops::Not for &Student   {
            type Output = (&'static str, &'static [&'static str]);

            /// return (structure name, field names)
            fn not(self) -> Self::Output {
                ("Student", &["id","name"])
            }
        }

        impl  core::ops::Index<usize> for Student   {
            type Output = dyn core::any::Any;

            fn index(&self, index: usize) -> &Self::Output {
                ([&self.id,&self.name] as [&Self::Output; 2])[index]
            }
        }

        impl  core::ops::IndexMut<usize> for Student   {
            fn index_mut(&mut self, index: usize) -> &mut Self::Output {
                ([&mut self.id,&mut self.name] as [&mut Self::Output; 2])[index]
            }
        }

struct Point(i32, i32);

        impl  core::ops::Not for &Point   {
            type Output = (&'static str, &'static [&'static str]);

            /// return (structure name, field names)
            fn not(self) -> Self::Output {
                ("Point", &["0","1"])
            }
        }

        impl  core::ops::Index<usize> for Point   {
            type Output = dyn core::any::Any;

            fn index(&self, index: usize) -> &Self::Output {
                ([&self.0,&self.1] as [&Self::Output; 2])[index]
            }
        }

        impl  core::ops::IndexMut<usize> for Point   {
            fn index_mut(&mut self, index: usize) -> &mut Self::Output {
                ([&mut self.0,&mut self.1] as [&mut Self::Output; 2])[index]
            }
        }

struct Empty {}

        impl  core::ops::Not for &Empty   {
            type Output = (&'static str, &'static [&'static str]);

            /// return (structure name, field names)
            fn not(self) -> Self::Output {
                ("Empty", &[])
            }
        }

        impl  core::ops::Index<usize> for Empty   {
            type Output = dyn core::any::Any;

            fn index(&self, index: usize) -> &Self::Output {
                ([] as [&Self::Output; 0])[index]
            }
        }

        impl  core::ops::IndexMut<usize> for Empty   {
            fn index_mut(&mut self, index: usize) -> &mut Self::Output {
                ([] as [&mut Self::Output; 0])[index]
            }
        }

#[test]
fn generator_writes_the_implementations_that_stand_here() {
    assert_eq!(struct_index(&student_declaration()).unwrap(), STUDENT_TEXT);
    assert_eq!(struct_index(&point_declaration()).unwrap(), POINT_TEXT);
    assert_eq!(struct_index(&empty_declaration()).unwrap(), EMPTY_TEXT);
}

#[test]
fn description_gives_the_name_and_the_field_names() {
    let student = Student { id: 18, name: "rust".to_string() };
    let (name, fields) = !&student;
    assert_eq!(name, "Student");
    assert_eq!(fields, &["id", "name"]);
    let other = Student::default();
    assert_eq!(!&other, ("Student", &["id", "name"][..]));
}

#[test]
fn description_of_positional_fields_gives_positions() {
    let point = Point(3, 4);
    let (name, fields) = !&point;
    assert_eq!(name, "Point");
    assert_eq!(fields, &["0", "1"]);
}

#[test]
fn description_of_a_structure_without_fields_is_empty() {
    let empty = Empty {};
    let (name, fields) = !&empty;
    assert_eq!(name, "Empty");
    assert!(fields.is_empty());
}

#[test]
fn read_by_position_yields_the_fields() {
    let student = Student { id: 18, name: "rust".to_string() };
    assert_eq!(student[0].downcast_ref::<i64>(), Some(&18));
    assert_eq!(student[1].downcast_ref::<String>(), Some(&"rust".to_string()));
    assert!(student[0].downcast_ref::<String>().is_none());
    let point = Point(3, 4);
    assert_eq!(point[0].downcast_ref::<i32>(), Some(&3));
    assert_eq!(point[1].downcast_ref::<i32>(), Some(&4));
}

#[test]
fn write_by_position_is_read_back() {
    let mut student = Student::default();
    *student[0].downcast_mut::<i64>().unwrap() = 7;
    *student[1].downcast_mut::<String>().unwrap() = "verus".to_string();
    assert_eq!(student[0].downcast_ref::<i64>(), Some(&7));
    assert_eq!(student[1].downcast_ref::<String>(), Some(&"verus".to_string()));
    assert_eq!(student.id, 7);
    assert_eq!(student.name, "verus");
    let mut point = Point(0, 0);
    *point[1].downcast_mut::<i32>().unwrap() = -5;
    assert_eq!(point[1].downcast_ref::<i32>(), Some(&-5));
    assert_eq!(point[0].downcast_ref::<i32>(), Some(&0));
}

#[test]
fn fields_are_copied_between_instances_by_position() {
    let source = Student { id: 18, name: "rust".to_string() };
    let mut target = Student::default();
    let len = (!&source).1.len();
    for i in 0..len {
        let from: &dyn Any = &source[i];
        let to: &mut dyn Any = &mut target[i];
        if let (Some(value), Some(slot)) = (from.downcast_ref::<i64>(), to.downcast_mut::<i64>()) {
            *slot = *value;
        }
        let to: &mut dyn Any = &mut target[i];
        if let (Some(value), Some(slot)) = (from.downcast_ref::<String>(), to.downcast_mut::<String>()) {
            *slot = value.clone();
        }
    }
    assert!(source.id == target.id && source.name == target.name);
}
