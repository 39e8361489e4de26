//! The uniform record that carries every JSON-RPC message through the proxy.

use crate::json::{Json, JsonModel};
use vstd::prelude::*;

verus! {

/// Error code of a request that was cancelled before it was answered.
pub const REQUEST_CANCELLED: i64 = -32800;

/// Error code of a failure inside the proxy.
pub const INTERNAL_ERROR: i64 = -32603;

/// The id of a request: an integer or a string, compared and never
/// interpreted.
#[derive(Debug, PartialEq, Eq)]
pub enum RpcId {
    Number(i64),
    String(String),
}

/// What an id is, apart from how it is stored.
pub ghost enum IdModel {
    Number(i64),
    String(Seq<char>),
}

impl View for RpcId {
    type V = IdModel;

    open spec fn view(&self) -> IdModel {
        match self {
            RpcId::Number(n) => IdModel::Number(*n),
            RpcId::String(s) => IdModel::String(s@),
        }
    }
}

impl RpcId {
    /// Whether the two ids are the same id.
    pub fn same_id(&self, other: &RpcId) -> (equal: bool)
        ensures
            equal == (self@ == other@),
    {
        match self {
            RpcId::Number(a) => match other {
                RpcId::Number(b) => *a == *b,
                RpcId::String(_) => false,
            },
            RpcId::String(a) => match other {
                RpcId::Number(_) => false,
                RpcId::String(b) => *a == *b,
            },
        }
    }
}

impl Clone for RpcId {
    fn clone(&self) -> (copy: RpcId)
        ensures
            copy@ == self@,
    {
        match self {
            RpcId::Number(n) => RpcId::Number(*n),
            RpcId::String(s) => RpcId::String(s.clone()),
        }
    }
}

/// The error member of a response.
#[derive(Debug)]
pub struct RpcError {
    pub code: i64,
    pub message: String,
    pub data: Option<Json>,
}

/// What an error member is.
pub ghost struct ErrorModel {
    pub code: i64,
    pub message: Seq<char>,
    pub data: Option<JsonModel>,
}

impl View for RpcError {
    type V = ErrorModel;

    open spec fn view(&self) -> ErrorModel {
        ErrorModel {
            code: self.code,
            message: self.message@,
            data: match self.data {
                Some(d) => Some(d@),
                None => None,
            },
        }
    }
}

impl Clone for RpcError {
    fn clone(&self) -> (copy: RpcError)
        ensures
            copy@ == self@,
    {
        RpcError {
            code: self.code,
            message: self.message.clone(),
            data: match &self.data {
                Some(d) => Some(d.clone()),
                None => None,
            },
        }
    }
}

/// One JSON-RPC message: a request, a notification or a response, told apart
/// by which of `id` and `method` are present.
#[derive(Debug)]
pub struct RpcMessage {
    pub jsonrpc: String,
    pub id: Option<RpcId>,
    pub method: Option<String>,
    pub params: Option<Json>,
    pub result: Option<Json>,
    pub error: Option<RpcError>,
}

/// What a message is.
pub ghost struct MessageModel {
    pub jsonrpc: Seq<char>,
    pub id: Option<IdModel>,
    pub method: Option<Seq<char>>,
    pub params: Option<JsonModel>,
    pub result: Option<JsonModel>,
    pub error: Option<ErrorModel>,
}

impl MessageModel {
    /// A request has an id and a method.
    pub open spec fn is_request(self) -> bool {
        self.id is Some && self.method is Some
    }

    /// A notification has a method and no id.
    pub open spec fn is_notification(self) -> bool {
        self.id is None && self.method is Some
    }

    /// A response has an id and no method.
    pub open spec fn is_response(self) -> bool {
        self.id is Some && self.method is None
    }
}

/// The response that reports error `code` with `message` for the request
/// with id `id`.
pub open spec fn error_reply(id: Option<IdModel>, code: i64, message: Seq<char>) -> MessageModel {
    MessageModel {
        jsonrpc: "2.0"@,
        id,
        method: None,
        params: None,
        result: None,
        error: Some(ErrorModel { code, message, data: None }),
    }
}

impl View for RpcMessage {
    type V = MessageModel;

    open spec fn view(&self) -> MessageModel {
        MessageModel {
            jsonrpc: self.jsonrpc@,
            id: match self.id {
                Some(i) => Some(i@),
                None => None,
            },
            method: match self.method {
                Some(m) => Some(m@),
                None => None,
            },
            params: match self.params {
                Some(p) => Some(p@),
                None => None,
            },
            result: match self.result {
                Some(r) => Some(r@),
                None => None,
            },
            error: match self.error {
                Some(e) => Some(e@),
                None => None,
            },
        }
    }
}

/// The model of an optional message.
pub open spec fn opt_message(message: Option<RpcMessage>) -> Option<MessageModel> {
    match message {
        Some(m) => Some(m@),
        None => None,
    }
}

impl Clone for RpcMessage {
    fn clone(&self) -> (copy: RpcMessage)
        ensures
            copy@ == self@,
    {
        RpcMessage {
            jsonrpc: self.jsonrpc.clone(),
            id: match &self.id {
                Some(i) => Some(i.clone()),
                None => None,
            },
            method: match &self.method {
                Some(m) => Some(m.clone()),
                None => None,
            },
            params: match &self.params {
                Some(p) => Some(p.clone()),
                None => None,
            },
            result: match &self.result {
                Some(r) => Some(r.clone()),
                None => None,
            },
            error: match &self.error {
                Some(e) => Some(e.clone()),
                None => None,
            },
        }
    }
}

impl RpcMessage {
    /// Whether this is a request.
    pub fn is_request(&self) -> (yes: bool)
        ensures
            yes == self@.is_request(),
    {
        self.id.is_some() && self.method.is_some()
    }

    /// Whether this is a notification.
    pub fn is_notification(&self) -> (yes: bool)
        ensures
            yes == self@.is_notification(),
    {
        self.id.is_none() && self.method.is_some()
    }

    /// Whether this is a response.
    pub fn is_response(&self) -> (yes: bool)
        ensures
            yes == self@.is_response(),
    {
        self.id.is_some() && self.method.is_none()
    }

    /// The method's name, where the message has one.
    pub fn method_name(&self) -> (name: Option<&str>)
        ensures
            match name {
                Some(n) => self@.method == Some(n@),
                None => self@.method is None,
            },
    {
        match &self.method {
            Some(m) => Some(m.as_str()),
            None => None,
        }
    }

    /// The internal-error response to `request`, with `message` as its text.
    pub fn error_response(request: &RpcMessage, message: &str) -> (reply: RpcMessage)
        ensures
            reply@ == error_reply(request@.id, INTERNAL_ERROR, message@),
    {
        RpcMessage {
            jsonrpc: "2.0".to_string(),
            id: match &request.id {
                Some(i) => Some(i.clone()),
                None => None,
            },
            method: None,
            params: None,
            result: None,
            error: Some(
                RpcError { code: INTERNAL_ERROR, message: message.to_string(), data: None },
            ),
        }
    }
}

} // verus!
