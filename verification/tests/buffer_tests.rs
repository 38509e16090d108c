use commit_replay::buffer::EditorBuffer;

#[test]
fn round_trip_multiline() {
    let b = EditorBuffer::from_content("alpha\nbeta\ngamma");
    assert_eq!(b.lines, vec!["alpha", "beta", "gamma"]);
    assert_eq!(b.get_content(), "alpha\nbeta\ngamma");
}

#[test]
fn round_trip_trailing_newline() {
    let b = EditorBuffer::from_content("alpha\n");
    assert_eq!(b.lines, vec!["alpha", ""]);
    assert_eq!(b.get_content(), "alpha\n");
}

#[test]
fn empty_content_yields_single_empty_line() {
    let b = EditorBuffer::from_content("");
    assert_eq!(b.lines, vec![""]);
    assert_eq!(b.get_content(), "");
    let n = EditorBuffer::new();
    assert_eq!(n.lines, vec![""]);
}

#[test]
fn delete_only_line_leaves_one_empty_line() {
    let mut b = EditorBuffer::from_content("solo");
    b.delete_line(0);
    assert_eq!(b.lines, vec![""]);
    b.delete_line(0);
    assert_eq!(b.lines, vec![""]);
}

#[test]
fn delete_line_out_of_range_is_ignored() {
    let mut b = EditorBuffer::from_content("a\nb");
    b.delete_line(7);
    assert_eq!(b.lines, vec!["a", "b"]);
}

#[test]
fn insert_char_at_column() {
    let mut b = EditorBuffer::from_content("hllo");
    b.insert_char(0, 1, 'e');
    assert_eq!(b.lines, vec!["hello"]);
}

#[test]
fn insert_char_clamps_past_line_end() {
    let mut b = EditorBuffer::from_content("ab");
    b.insert_char(0, 99, 'c');
    assert_eq!(b.lines, vec!["abc"]);
}

#[test]
fn insert_char_pads_missing_lines() {
    let mut b = EditorBuffer::from_content("a");
    b.insert_char(2, 0, 'x');
    assert_eq!(b.lines, vec!["a", "", "x"]);
}

#[test]
fn insert_char_multibyte() {
    let mut b = EditorBuffer::from_content("héllo");
    b.insert_char(0, 2, 'x');
    assert_eq!(b.lines, vec!["héxllo"]);
}

#[test]
fn delete_char_in_range() {
    let mut b = EditorBuffer::from_content("hxello");
    b.delete_char(0, 1);
    assert_eq!(b.lines, vec!["hello"]);
}

#[test]
fn delete_char_out_of_range_is_ignored() {
    let mut b = EditorBuffer::from_content("ab");
    b.delete_char(0, 5);
    b.delete_char(3, 0);
    assert_eq!(b.lines, vec!["ab"]);
}

#[test]
fn insert_line_at_index() {
    let mut b = EditorBuffer::from_content("a\nc");
    b.insert_line(1, String::from("b"));
    assert_eq!(b.lines, vec!["a", "b", "c"]);
}

#[test]
fn insert_line_pads_to_index() {
    let mut b = EditorBuffer::from_content("a");
    b.insert_line(3, String::from("d"));
    assert_eq!(b.lines, vec!["a", "", "", "d"]);
}
