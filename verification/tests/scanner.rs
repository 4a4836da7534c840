use struct_index::{parse_declaration, struct_index, Delimiter, DeriveError, Group, TokenTree};

fn ident(text: &str) -> TokenTree {
    TokenTree::Ident(text.to_string())
}

fn punct(c: char) -> TokenTree {
    TokenTree::Punct(c)
}

fn group(delimiter: Delimiter, text: &str, stream: Vec<TokenTree>) -> TokenTree {
    TokenTree::Group(Group { delimiter, text: text.to_string(), stream })
}

fn student_body() -> TokenTree {
    group(
        Delimiter::Brace,
        "{ id : i64, name : String }",
        vec![
            ident("id"),
            punct(':'),
            ident("i64"),
            punct(','),
            ident("name"),
            punct(':'),
            ident("String"),
        ],
    )
}

#[test]
fn plain_structure_is_scanned() {
    let input = vec![ident("struct"), ident("Student"), student_body()];
    let declaration = parse_declaration(&input).unwrap();
    assert_eq!(declaration.name, "Student");
    assert_eq!(declaration.raw_generics, "");
    assert_eq!(declaration.where_clause, "");
    assert_eq!(declaration.fields, vec!["id".to_string(), "name".to_string()]);
}

#[test]
fn tokens_in_front_of_the_keyword_are_passed_over() {
    // #[derive(Default)] pub(crate) struct Student { .. }
    let input = vec![
        punct('#'),
        group(
            Delimiter::Bracket,
            "[derive(Default)]",
            vec![ident("derive"), group(Delimiter::Parenthesis, "(Default)", vec![ident("Default")])],
        ),
        ident("pub"),
        group(Delimiter::Parenthesis, "(crate)", vec![ident("crate")]),
        punct('<'),
        ident("struct"),
        ident("Student"),
        student_body(),
    ];
    let declaration = parse_declaration(&input).unwrap();
    assert_eq!(declaration.name, "Student");
    assert_eq!(declaration.raw_generics, "");
    assert_eq!(declaration.fields, vec!["id".to_string(), "name".to_string()]);
}

#[test]
fn generic_list_and_constraint_clause_are_gathered() {
    // struct Pair<T: Default, U: Clone> where T: Copy { first: T, second: U }
    let input = vec![
        ident("struct"),
        ident("Pair"),
        punct('<'),
        ident("T"),
        punct(':'),
        ident("Default"),
        punct(','),
        ident("U"),
        punct(':'),
        ident("Clone"),
        punct('>'),
        ident("where"),
        ident("T"),
        punct(':'),
        ident("Copy"),
        group(
            Delimiter::Brace,
            "{ first : T, second : U }",
            vec![
                ident("first"),
                punct(':'),
                ident("T"),
                punct(','),
                ident("second"),
                punct(':'),
                ident("U"),
            ],
        ),
    ];
    let declaration = parse_declaration(&input).unwrap();
    assert_eq!(declaration.name, "Pair");
    assert_eq!(declaration.raw_generics, "<T:Default,U:Clone>");
    assert_eq!(declaration.where_clause, "where T:Copy");
    assert_eq!(declaration.fields, vec!["first".to_string(), "second".to_string()]);
}

#[test]
fn parenthesized_body_gives_positions() {
    // struct Pair<T>(T, u8) where T: Copy;
    let input = vec![
        ident("struct"),
        ident("Pair"),
        punct('<'),
        ident("T"),
        punct('>'),
        group(Delimiter::Parenthesis, "(T, u8)", vec![ident("T"), punct(','), ident("u8")]),
        ident("where"),
        ident("T"),
        punct(':'),
        ident("Copy"),
        punct(';'),
    ];
    let declaration = parse_declaration(&input).unwrap();
    assert_eq!(declaration.name, "Pair");
    assert_eq!(declaration.raw_generics, "<T>");
    assert_eq!(declaration.where_clause, "");
    assert_eq!(declaration.fields, vec!["0".to_string(), "1".to_string()]);
}

#[test]
fn last_identifier_in_front_of_the_generic_list_is_the_name() {
    let input = vec![ident("struct"), ident("A"), ident("B"), student_body()];
    assert_eq!(parse_declaration(&input).unwrap().name, "B");
}

#[test]
fn keyword_where_counts_only_inside_the_generic_section() {
    // struct A where { .. }
    let input = vec![ident("struct"), ident("A"), ident("where"), student_body()];
    let declaration = parse_declaration(&input).unwrap();
    assert_eq!(declaration.name, "where");
    assert_eq!(declaration.where_clause, "");
}

#[test]
fn second_keyword_struct_is_passed_over() {
    let input = vec![
        ident("struct"),
        ident("A"),
        punct('<'),
        ident("struct"),
        ident("T"),
        punct('>'),
        student_body(),
    ];
    let declaration = parse_declaration(&input).unwrap();
    assert_eq!(declaration.name, "A");
    assert_eq!(declaration.raw_generics, "<T>");
}

#[test]
fn repeated_keyword_where_opens_the_clause_again() {
    let input = vec![
        ident("struct"),
        ident("A"),
        punct('<'),
        ident("T"),
        punct('>'),
        ident("where"),
        ident("T"),
        punct(':'),
        ident("Copy"),
        punct(','),
        ident("where"),
        punct('<'),
        ident("U"),
        student_body(),
    ];
    let declaration = parse_declaration(&input).unwrap();
    assert_eq!(declaration.raw_generics, "<T>");
    assert_eq!(declaration.where_clause, "where T:Copy,where <U");
}

#[test]
fn punctuation_in_front_of_the_generic_list_is_dropped() {
    let input = vec![
        ident("struct"),
        punct('>'),
        punct(':'),
        ident("A"),
        punct('<'),
        punct('<'),
        ident("T"),
        TokenTree::Literal("7".to_string()),
        punct('>'),
        student_body(),
    ];
    let declaration = parse_declaration(&input).unwrap();
    assert_eq!(declaration.name, "A");
    assert_eq!(declaration.raw_generics, "<<T>");
}

#[test]
fn other_groups_are_no_body() {
    // struct A [x] {a: u8}
    let input = vec![
        ident("struct"),
        ident("A"),
        group(Delimiter::Bracket, "[x]", vec![ident("x")]),
        group(Delimiter::Invisible, "y", vec![ident("y")]),
        group(Delimiter::Brace, "{ a : u8 }", vec![ident("a"), punct(':'), ident("u8")]),
    ];
    let declaration = parse_declaration(&input).unwrap();
    assert_eq!(declaration.fields, vec!["a".to_string()]);
}

#[test]
fn unit_structure_is_refused() {
    let input = vec![ident("struct"), ident("Unit"), punct(';')];
    assert_eq!(parse_declaration(&input).err(), Some(DeriveError::UnsupportedShape));
    assert_eq!(struct_index(&input), Err(DeriveError::UnsupportedShape));
}

#[test]
fn no_tokens_are_refused() {
    assert_eq!(parse_declaration(&[]).err(), Some(DeriveError::UnsupportedShape));
    assert_eq!(struct_index(&[]), Err(DeriveError::UnsupportedShape));
}

#[test]
fn body_without_the_keyword_is_refused() {
    // enum Choice { A, B }
    let input = vec![
        ident("enum"),
        ident("Choice"),
        group(Delimiter::Brace, "{ A, B }", vec![ident("A"), punct(','), ident("B")]),
    ];
    assert_eq!(parse_declaration(&input).err(), Some(DeriveError::UnsupportedShape));
    assert_eq!(struct_index(&input), Err(DeriveError::UnsupportedShape));
}

#[test]
fn only_unsupported_groups_are_refused() {
    let input = vec![
        ident("struct"),
        ident("A"),
        group(Delimiter::Bracket, "[x]", vec![ident("x")]),
    ];
    assert_eq!(struct_index(&input), Err(DeriveError::UnsupportedShape));
}

#[test]
fn body_without_a_name_is_refused() {
    let input = vec![ident("struct"), student_body()];
    assert_eq!(parse_declaration(&input).err(), Some(DeriveError::MissingName));
    assert_eq!(struct_index(&input), Err(DeriveError::MissingName));
}

#[test]
fn name_behind_the_generic_list_is_no_name() {
    // struct <T> A { .. }
    let input = vec![
        ident("struct"),
        punct('<'),
        ident("T"),
        punct('>'),
        ident("A"),
        student_body(),
    ];
    assert_eq!(struct_index(&input), Err(DeriveError::MissingName));
}

#[test]
fn keyword_struct_is_never_the_name() {
    let input = vec![ident("struct"), ident("struct"), student_body()];
    assert_eq!(struct_index(&input), Err(DeriveError::MissingName));
}
