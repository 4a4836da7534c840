use struct_index::gen_clean;

#[test]
fn empty_list_stays_empty() {
    assert_eq!(gen_clean(""), "");
}

#[test]
fn bounds_are_dropped() {
    assert_eq!(gen_clean("T:Default,U:Clone"), "T,U>");
}

#[test]
fn closed_list_is_not_closed_twice() {
    assert_eq!(gen_clean("T>"), "T>");
}

#[test]
fn scanned_list_keeps_its_opening_bracket() {
    assert_eq!(gen_clean("<T:Default,U:Clone>"), "<T,U>");
    assert_eq!(gen_clean("<T>"), "<T>");
    assert_eq!(gen_clean("<T,U>"), "<T,U>");
}

#[test]
fn only_the_text_before_the_first_colon_is_kept() {
    assert_eq!(gen_clean("<T:a::B:C>"), "<T>");
    assert_eq!(gen_clean("<'a,T:'a>"), "<'a,T>");
}

#[test]
fn blanks_are_characters_like_others() {
    assert_eq!(gen_clean("T: Default, U: Clone"), "T, U>");
}

#[test]
fn comma_at_the_end_opens_no_piece() {
    assert_eq!(gen_clean("T,"), "T>");
    assert_eq!(gen_clean("T:X,"), "T>");
    assert_eq!(gen_clean("<T,U,>"), "<T,U,>");
}

#[test]
fn empty_pieces_stay_empty() {
    assert_eq!(gen_clean(","), ">");
    assert_eq!(gen_clean("a,,b"), "a,,b>");
    assert_eq!(gen_clean("a,,"), "a,>");
    assert_eq!(gen_clean(":"), ">");
    assert_eq!(gen_clean(":x,:y"), ",>");
}

#[test]
fn bracket_inside_does_not_close_the_list() {
    assert_eq!(gen_clean("<T=Vec<u8>,U:Clone>"), "<T=Vec<u8>,U>");
    assert_eq!(gen_clean("a>b"), "a>b>");
}

#[test]
fn characters_outside_ascii_pass_through() {
    assert_eq!(gen_clean("<Ä:Ö,é>"), "<Ä,é>");
}
