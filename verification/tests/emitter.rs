use struct_index::{struct_ret, DeriveError};

fn strings(names: &[&str]) -> Vec<String> {
    names.iter().map(|name| name.to_string()).collect()
}

fn expected(
    name: &str,
    generics: &str,
    bare: &str,
    where_clause: &str,
    names: &str,
    shared: &str,
    exclusive: &str,
    len: usize,
) -> String {
    format!(
        "
        impl {generics} core::ops::Not for &{name} {bare} {where_clause} {{
            type Output = (&'static str, &'static [&'static str]);

            /// return (structure name, field names)
            fn not(self) -> Self::Output {{
                (\"{name}\", &[{names}])
            }}
        }}

        impl {generics} core::ops::Index<usize> for {name} {bare} {where_clause} {{
            type Output = dyn core::any::Any;

            fn index(&self, index: usize) -> &Self::Output {{
                ([{shared}] as [&Self::Output; {len}])[index]
            }}
        }}

        impl {generics} core::ops::IndexMut<usize> for {name} {bare} {where_clause} {{
            fn index_mut(&mut self, index: usize) -> &mut Self::Output {{
                ([{exclusive}] as [&mut Self::Output; {len}])[index]
            }}
        }}
        "
    )
}

#[test]
fn plain_structure_text() {
    let text = struct_ret("Student", "", "", &strings(&["id", "name"])).unwrap();
    assert_eq!(
        text,
        expected(
            "Student",
            "",
            "",
            "",
            "\"id\",\"name\"",
            "&self.id,&self.name",
            "&mut self.id,&mut self.name",
            2,
        )
    );
}

#[test]
fn generic_structure_text() {
    let text = struct_ret(
        "Pair",
        "<T:Default,U:Clone>",
        "where T:Copy",
        &strings(&["0", "1"]),
    )
    .unwrap();
    assert_eq!(
        text,
        expected(
            "Pair",
            "<T:Default,U:Clone>",
            "<T,U>",
            "where T:Copy",
            "\"0\",\"1\"",
            "&self.0,&self.1",
            "&mut self.0,&mut self.1",
            2,
        )
    );
}

#[test]
fn structure_without_fields_text() {
    let text = struct_ret("Unit", "", "", &[]).unwrap();
    assert_eq!(text, expected("Unit", "", "", "", "", "", "", 0));
    assert!(text.contains("(\"Unit\", &[])"));
    assert!(text.contains("([] as [&Self::Output; 0])[index]"));
    assert!(text.contains("([] as [&mut Self::Output; 0])[index]"));
}

#[test]
fn single_field_has_no_comma() {
    let text = struct_ret("One", "", "", &strings(&["only"])).unwrap();
    assert!(text.contains("(\"One\", &[\"only\"])"));
    assert!(text.contains("([&self.only] as [&Self::Output; 1])[index]"));
    assert!(text.contains("([&mut self.only] as [&mut Self::Output; 1])[index]"));
}

#[test]
fn number_of_fields_is_written_in_decimal() {
    let names: Vec<String> = (0..120).map(|i| format!("f{}", i)).collect();
    let text = struct_ret("Wide", "", "", &names).unwrap();
    assert!(text.contains("] as [&Self::Output; 120])[index]"));
    assert!(text.contains("] as [&mut Self::Output; 120])[index]"));
    assert!(text.contains("&self.f0,&self.f1,"));
    assert!(text.contains(",&mut self.f118,&mut self.f119]"));
}

#[test]
fn structure_without_name_is_refused() {
    assert_eq!(struct_ret("", "", "", &strings(&["id"])), Err(DeriveError::MissingName));
    assert_eq!(struct_ret("", "<T>", "where T:Copy", &[]), Err(DeriveError::MissingName));
}

#[test]
fn messages_name_the_failure() {
    assert_eq!(DeriveError::MissingName.message(), "structure name not found");
    assert_eq!(DeriveError::UnsupportedShape.message(), "can only be usual structures");
}
