use lsp_proxy::json::{Json, JsonMember};
use lsp_proxy::message::{RpcId, RpcMessage, INTERNAL_ERROR, REQUEST_CANCELLED};

fn message(id: Option<RpcId>, method: Option<&str>) -> RpcMessage {
    RpcMessage {
        jsonrpc: "2.0".to_string(),
        id,
        method: method.map(|m| m.to_string()),
        params: None,
        result: None,
        error: None,
    }
}

#[test]
fn request_notification_response_are_told_apart() {
    let request = message(Some(RpcId::Number(1)), Some("initialize"));
    assert!(request.is_request() && !request.is_notification() && !request.is_response());
    assert_eq!(request.method_name(), Some("initialize"));
    let notification = message(None, Some("exit"));
    assert!(!notification.is_request() && notification.is_notification());
    assert!(!notification.is_response());
    let response = message(Some(RpcId::String("a".to_string())), None);
    assert!(!response.is_request() && !response.is_notification() && response.is_response());
    assert_eq!(response.method_name(), None);
    let nothing = message(None, None);
    assert!(!nothing.is_request() && !nothing.is_notification() && !nothing.is_response());
}

#[test]
fn error_response_carries_the_internal_error_code() {
    let request = message(Some(RpcId::Number(7)), Some("textDocument/hover"));
    let reply = RpcMessage::error_response(&request, "lsp-proxy: nope");
    assert_eq!(reply.jsonrpc, "2.0");
    assert_eq!(reply.id, Some(RpcId::Number(7)));
    assert!(reply.is_response());
    assert!(reply.params.is_none() && reply.result.is_none());
    let error = reply.error.unwrap();
    assert_eq!(error.code, -32603);
    assert_eq!(error.code, INTERNAL_ERROR);
    assert_eq!(error.message, "lsp-proxy: nope");
    assert!(error.data.is_none());
    assert_eq!(REQUEST_CANCELLED, -32800);
}

#[test]
fn ids_compare_by_kind_and_value() {
    assert!(RpcId::Number(1).same_id(&RpcId::Number(1)));
    assert!(!RpcId::Number(1).same_id(&RpcId::Number(2)));
    assert!(!RpcId::Number(1).same_id(&RpcId::String("1".to_string())));
    assert!(RpcId::String("x".to_string()).same_id(&RpcId::String("x".to_string())));
    assert!(!RpcId::String("x".to_string()).same_id(&RpcId::String("y".to_string())));
    assert_eq!(RpcId::Number(3).clone(), RpcId::Number(3));
}

#[test]
fn json_members_are_found_by_key() {
    let value = Json::object(vec![
        JsonMember::new("a", Json::PosInt(1)),
        JsonMember::new("b", Json::string("two")),
        JsonMember::new("a", Json::PosInt(3)),
        JsonMember::new("list", Json::array(vec![Json::Null, Json::Bool(true)])),
    ]);
    assert_eq!(value.get("a").unwrap().as_u64(), Some(1));
    assert_eq!(value.get("b").unwrap().as_str(), Some("two"));
    assert!(value.get("c").is_none());
    assert_eq!(value.get("list").unwrap().as_array().unwrap().len(), 2);
    assert!(Json::PosInt(1).get("a").is_none());
    assert!(value.as_str().is_none());
    assert!(value.as_array().is_none());
}

#[test]
fn json_numbers_convert_as_far_as_they_fit() {
    assert_eq!(Json::PosInt(5).as_i64(), Some(5));
    assert_eq!(Json::PosInt(5).as_u64(), Some(5));
    assert_eq!(Json::PosInt(u64::MAX).as_i64(), None);
    assert_eq!(Json::PosInt(9223372036854775807).as_i64(), Some(i64::MAX));
    assert_eq!(Json::PosInt(9223372036854775808).as_i64(), None);
    assert_eq!(Json::NegInt(-5).as_i64(), Some(-5));
    assert_eq!(Json::NegInt(-5).as_u64(), None);
    assert_eq!(Json::Float(0x3ff8000000000000).as_i64(), None);
    assert_eq!(Json::Float(0x3ff8000000000000).as_u64(), None);
    assert_eq!(Json::string("5").as_i64(), None);
    assert_eq!(Json::integer(-3).as_i64(), Some(-3));
    assert_eq!(Json::integer(4).as_u64(), Some(4));
}

#[test]
fn json_clone_is_deep() {
    let value = Json::object(vec![JsonMember::new(
        "k",
        Json::array(vec![Json::string("v"), Json::NegInt(-1), Json::Float(7)]),
    )]);
    let copy = value.clone();
    assert_eq!(format!("{:?}", copy), format!("{:?}", value));
}
