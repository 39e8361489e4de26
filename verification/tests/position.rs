use lsp_proxy::text_edit::{apply_range_edit, find_offset_in_line, position_to_offset};

#[test]
fn test_position_to_offset_simple() {
    let text = "hello\nworld\n";
    assert_eq!(position_to_offset(text, 0, 0).unwrap(), 0);
    assert_eq!(position_to_offset(text, 0, 5).unwrap(), 5);
    assert_eq!(position_to_offset(text, 1, 0).unwrap(), 6);
    assert_eq!(position_to_offset(text, 1, 5).unwrap(), 11);
}

#[test]
fn test_position_to_offset_multibyte() {
    let text = "こんにちは\nworld\n";
    assert_eq!(position_to_offset(text, 0, 0).unwrap(), 0);
    assert_eq!(position_to_offset(text, 0, 1).unwrap(), 3);
    assert_eq!(position_to_offset(text, 1, 0).unwrap(), 16);
}

#[test]
fn test_position_to_offset_surrogate_pair() {
    let text = "a😀b\n";
    assert_eq!(position_to_offset(text, 0, 0).unwrap(), 0);
    assert_eq!(position_to_offset(text, 0, 1).unwrap(), 1);
    assert_eq!(position_to_offset(text, 0, 3).unwrap(), 5);
    assert_eq!(position_to_offset(text, 0, 4).unwrap(), 6);
}

#[test]
fn test_position_to_offset_line_end_clamp() {
    let text = "abc\ndef\n";
    assert_eq!(position_to_offset(text, 0, 100).unwrap(), 3);
    assert_eq!(position_to_offset(text, 1, 100).unwrap(), 7);
}

#[test]
fn test_position_to_offset_line_out_of_range() {
    let text = "abc\ndef\n";
    let result = position_to_offset(text, 10, 0);
    assert!(result.is_err());
}

#[test]
fn test_position_to_offset_empty_text() {
    let text = "";
    assert_eq!(position_to_offset(text, 0, 0).unwrap(), 0);
}

#[test]
fn test_position_to_offset_no_trailing_newline() {
    let text = "abc";
    assert_eq!(position_to_offset(text, 0, 0).unwrap(), 0);
    assert_eq!(position_to_offset(text, 0, 3).unwrap(), 3);
}

#[test]
fn position_inside_surrogate_pair_resolves_after_it() {
    assert_eq!(position_to_offset("a😀b\n", 0, 2).unwrap(), 5);
}

#[test]
fn position_on_empty_last_line() {
    assert_eq!(position_to_offset("abc\n", 1, 0).unwrap(), 4);
    assert_eq!(position_to_offset("abc\n", 1, 7).unwrap(), 4);
    assert!(position_to_offset("abc\n", 2, 0).is_err());
}

#[test]
fn offset_within_a_given_line() {
    let text = "ab\ncdé\nf";
    assert_eq!(find_offset_in_line(text, 3, 7, 0).unwrap(), 3);
    assert_eq!(find_offset_in_line(text, 3, 7, 2).unwrap(), 5);
    assert_eq!(find_offset_in_line(text, 3, 7, 3).unwrap(), 7);
    assert_eq!(find_offset_in_line(text, 3, 7, 9).unwrap(), 7);
    assert_eq!(find_offset_in_line(text, 8, 9, 1).unwrap(), 9);
}

#[test]
fn range_edit_replaces_between_positions() {
    let mut text = "def hello():\n    print('hello')\n".to_string();
    apply_range_edit(&mut text, 1, 11, 1, 16, "world").unwrap();
    assert_eq!(text, "def hello():\n    print('world')\n");
}

#[test]
fn range_edit_across_lines() {
    let mut text = "line1\nline2\nline3\n".to_string();
    apply_range_edit(&mut text, 0, 5, 2, 0, "").unwrap();
    assert_eq!(text, "line1line3\n");
}

#[test]
fn range_edit_at_a_point_inserts() {
    let mut text = "a😀b\n".to_string();
    apply_range_edit(&mut text, 0, 3, 0, 3, "XY").unwrap();
    assert_eq!(text, "a😀XYb\n");
}

#[test]
fn range_edit_rejects_reversed_range_and_keeps_text() {
    let mut text = "hello world".to_string();
    assert!(apply_range_edit(&mut text, 0, 10, 0, 5, "test").is_err());
    assert_eq!(text, "hello world");
}

#[test]
fn range_edit_rejects_missing_line_and_keeps_text() {
    let mut text = "hello".to_string();
    assert!(apply_range_edit(&mut text, 3, 0, 3, 1, "x").is_err());
    assert_eq!(text, "hello");
}
