use lsp_proxy::error::ProxyError;
use lsp_proxy::json::{Json, JsonMember};
use lsp_proxy::proxy::LspProxy;

fn position(line: u64, character: u64) -> Json {
    Json::object(vec![
        JsonMember::new("line", Json::PosInt(line)),
        JsonMember::new("character", Json::PosInt(character)),
    ])
}

fn range(start: (u64, u64), end: (u64, u64)) -> Json {
    Json::object(vec![
        JsonMember::new("start", position(start.0, start.1)),
        JsonMember::new("end", position(end.0, end.1)),
    ])
}

#[test]
fn test_apply_incremental_change_simple_replace() {
    let mut text = "hello world".to_string();
    let range = range((0, 0), (0, 5));
    LspProxy::apply_incremental_change(&mut text, &range, "hi").unwrap();
    assert_eq!(text, "hi world");
}

#[test]
fn test_apply_incremental_change_insert() {
    let mut text = "hello world".to_string();
    let range = range((0, 5), (0, 5));
    LspProxy::apply_incremental_change(&mut text, &range, " beautiful").unwrap();
    assert_eq!(text, "hello beautiful world");
}

#[test]
fn test_apply_incremental_change_delete() {
    let mut text = "hello beautiful world".to_string();
    let range = range((0, 5), (0, 15));
    LspProxy::apply_incremental_change(&mut text, &range, "").unwrap();
    assert_eq!(text, "hello world");
}

#[test]
fn test_apply_incremental_change_multiline() {
    let mut text = "def hello():\n    print('hello')\n".to_string();
    let range = range((1, 11), (1, 16));
    LspProxy::apply_incremental_change(&mut text, &range, "world").unwrap();
    assert_eq!(text, "def hello():\n    print('world')\n");
}

#[test]
fn test_apply_incremental_change_cross_line() {
    let mut text = "line1\nline2\nline3\n".to_string();
    let range = range((0, 5), (2, 0));
    LspProxy::apply_incremental_change(&mut text, &range, "").unwrap();
    assert_eq!(text, "line1line3\n");
}

#[test]
fn test_apply_incremental_change_invalid_range() {
    let mut text = "hello world".to_string();
    let range = range((0, 10), (0, 5));
    let result = LspProxy::apply_incremental_change(&mut text, &range, "test");
    assert!(result.is_err());
}

#[test]
fn test_apply_incremental_change_with_emoji() {
    let mut text = "hello 😀 world".to_string();
    let range = range((0, 6), (0, 9));
    LspProxy::apply_incremental_change(&mut text, &range, "").unwrap();
    assert_eq!(text, "hello world");
}

#[test]
fn invalid_range_is_a_protocol_error_and_keeps_the_text() {
    let mut text = "hello world".to_string();
    let result = LspProxy::apply_incremental_change(&mut text, &range((0, 10), (0, 5)), "test");
    assert!(matches!(result, Err(ProxyError::InvalidMessage(_))));
    assert_eq!(text, "hello world");
}

#[test]
fn range_without_an_end_is_a_protocol_error() {
    let mut text = "abc".to_string();
    let broken = Json::object(vec![JsonMember::new("start", position(0, 0))]);
    let result = LspProxy::apply_incremental_change(&mut text, &broken, "x");
    assert!(matches!(result, Err(ProxyError::InvalidMessage(_))));
    assert_eq!(text, "abc");
}

#[test]
fn position_with_a_negative_line_is_a_protocol_error() {
    let mut text = "abc".to_string();
    let start = Json::object(vec![
        JsonMember::new("line", Json::NegInt(-1)),
        JsonMember::new("character", Json::PosInt(0)),
    ]);
    let broken = Json::object(vec![
        JsonMember::new("start", start),
        JsonMember::new("end", position(0, 1)),
    ]);
    assert!(LspProxy::apply_incremental_change(&mut text, &broken, "x").is_err());
    assert_eq!(text, "abc");
}

#[test]
fn change_without_range_replaces_the_whole_text() {
    let mut text = "old".to_string();
    let change = Json::object(vec![JsonMember::new("text", Json::string("new text"))]);
    LspProxy::apply_change(&mut text, &change).unwrap();
    assert_eq!(text, "new text");
}

#[test]
fn changes_apply_in_order_and_stop_at_the_first_failure() {
    let mut text = "abc".to_string();
    let first = Json::object(vec![
        JsonMember::new("range", range((0, 0), (0, 1))),
        JsonMember::new("text", Json::string("X")),
    ]);
    let failing = Json::object(vec![
        JsonMember::new("range", range((5, 0), (5, 1))),
        JsonMember::new("text", Json::string("Y")),
    ]);
    let never = Json::object(vec![JsonMember::new("text", Json::string("Z"))]);
    let result = LspProxy::apply_changes(&mut text, &vec![first, failing, never]);
    assert!(result.is_err());
    assert_eq!(text, "Xbc");
}

#[test]
fn no_changes_leave_the_text_alone() {
    let mut text = "abc".to_string();
    LspProxy::apply_changes(&mut text, &Vec::new()).unwrap();
    assert_eq!(text, "abc");
}
