//! JSON-RPC messages.

use vstd::prelude::*;

use crate::json::{duplicate_opt, opt_json, Json, JsonV};

verus! {

/// A request.
#[derive(Debug, PartialEq, Eq)]
pub struct JsonRpcRequest {
    pub jsonrpc: String,
    pub id: Json,
    pub method: String,
    pub params: Option<Json>,
}

/// A successful response.
#[derive(Debug, PartialEq, Eq)]
pub struct JsonRpcResponse {
    pub jsonrpc: String,
    pub id: Json,
    pub result: Json,
}

/// The error object of an error response.
#[derive(Debug, PartialEq, Eq)]
pub struct JsonRpcError {
    pub code: i64,
    pub message: String,
    pub data: Option<Json>,
}

/// An error response.
#[derive(Debug, PartialEq, Eq)]
pub struct JsonRpcErrorResponse {
    pub jsonrpc: String,
    pub id: Json,
    pub error: JsonRpcError,
}

/// A notification.
#[derive(Debug, PartialEq, Eq)]
pub struct JsonRpcNotification {
    pub jsonrpc: String,
    pub method: String,
    pub params: Option<Json>,
}

/// Any JSON-RPC message.
#[derive(Debug, PartialEq, Eq)]
pub enum JsonRpcMessage {
    Request(JsonRpcRequest),
    Response(JsonRpcResponse),
    ErrorResponse(JsonRpcErrorResponse),
    Notification(JsonRpcNotification),
}

/// Model of [`JsonRpcNotification`].
pub struct NotificationV {
    pub jsonrpc: Seq<char>,
    pub method: Seq<char>,
    pub params: Option<JsonV>,
}

/// Model of [`JsonRpcMessage`].
pub enum MessageV {
    Request { jsonrpc: Seq<char>, id: JsonV, method: Seq<char>, params: Option<JsonV> },
    Response { jsonrpc: Seq<char>, id: JsonV, result: JsonV },
    ErrorResponse {
        jsonrpc: Seq<char>,
        id: JsonV,
        code: i64,
        message: Seq<char>,
        data: Option<JsonV>,
    },
    Notification(NotificationV),
}

impl View for JsonRpcNotification {
    type V = NotificationV;

    open spec fn view(&self) -> NotificationV {
        NotificationV {
            jsonrpc: self.jsonrpc@,
            method: self.method@,
            params: opt_json(self.params),
        }
    }
}

impl View for JsonRpcMessage {
    type V = MessageV;

    open spec fn view(&self) -> MessageV {
        match self {
            JsonRpcMessage::Request(r) => MessageV::Request {
                jsonrpc: r.jsonrpc@,
                id: r.id@,
                method: r.method@,
                params: opt_json(r.params),
            },
            JsonRpcMessage::Response(r) => MessageV::Response {
                jsonrpc: r.jsonrpc@,
                id: r.id@,
                result: r.result@,
            },
            JsonRpcMessage::ErrorResponse(r) => MessageV::ErrorResponse {
                jsonrpc: r.jsonrpc@,
                id: r.id@,
                code: r.error.code,
                message: r.error.message@,
                data: opt_json(r.error.data),
            },
            JsonRpcMessage::Notification(n) => MessageV::Notification(n@),
        }
    }
}

impl MessageV {
    /// The method of a request or notification.
    pub open spec fn method(self) -> Option<Seq<char>> {
        match self {
            MessageV::Request { method, .. } => Some(method),
            MessageV::Notification(n) => Some(n.method),
            _ => None,
        }
    }

    /// The id of a request or of either kind of response.
    pub open spec fn id(self) -> Option<JsonV> {
        match self {
            MessageV::Request { id, .. } => Some(id),
            MessageV::Response { id, .. } => Some(id),
            MessageV::ErrorResponse { id, .. } => Some(id),
            MessageV::Notification(_) => None,
        }
    }

    /// Whether the message answers a request.
    pub open spec fn is_response(self) -> bool {
        self is Response || self is ErrorResponse
    }

    /// The message with its id replaced, where it is a response of either kind.
    pub open spec fn answered_as(self, new_id: JsonV) -> MessageV {
        match self {
            MessageV::Response { jsonrpc, id, result } => MessageV::Response {
                jsonrpc,
                id: new_id,
                result,
            },
            MessageV::ErrorResponse { jsonrpc, id, code, message, data } => MessageV::ErrorResponse {
                jsonrpc,
                id: new_id,
                code,
                message,
                data,
            },
            other => other,
        }
    }
}

/// The model of an optional message.
pub open spec fn opt_message(m: Option<JsonRpcMessage>) -> Option<MessageV> {
    match m {
        Some(x) => Some(x@),
        None => None,
    }
}

impl JsonRpcNotification {
    /// A copy of the notification.
    pub fn duplicate(&self) -> (r: Self)
        ensures
            r@ == self@,
    {
        JsonRpcNotification {
            jsonrpc: self.jsonrpc.clone(),
            method: self.method.clone(),
            params: duplicate_opt(&self.params),
        }
    }
}

impl JsonRpcMessage {
    /// The method of a request or notification.
    pub fn method(&self) -> (r: Option<&str>)
        ensures
            match r {
                Some(m) => self@.method() == Some(m@),
                None => self@.method() is None,
            },
    {
        match self {
            JsonRpcMessage::Request(r) => Some(r.method.as_str()),
            JsonRpcMessage::Notification(n) => Some(n.method.as_str()),
            _ => None,
        }
    }

    /// The id of a request or of either kind of response.
    pub fn id(&self) -> (r: Option<&Json>)
        ensures
            match r {
                Some(j) => self@.id() == Some(j@),
                None => self@.id() is None,
            },
    {
        match self {
            JsonRpcMessage::Request(r) => Some(&r.id),
            JsonRpcMessage::Response(r) => Some(&r.id),
            JsonRpcMessage::ErrorResponse(r) => Some(&r.id),
            JsonRpcMessage::Notification(_) => None,
        }
    }

    /// Whether the message is a request.
    pub fn is_request(&self) -> (r: bool)
        ensures
            r == (self@ is Request),
    {
        match self {
            JsonRpcMessage::Request(_) => true,
            _ => false,
        }
    }

    /// Whether the message answers a request.
    pub fn is_response(&self) -> (r: bool)
        ensures
            r == self@.is_response(),
    {
        match self {
            JsonRpcMessage::Response(_) => true,
            JsonRpcMessage::ErrorResponse(_) => true,
            _ => false,
        }
    }

    /// The message with the id that its requester used, where it is a response of either kind.
    pub fn answered_as(self, id: &Json) -> (r: JsonRpcMessage)
        ensures
            r@ == self@.answered_as(id@),
    {
        match self {
            JsonRpcMessage::Response(resp) => JsonRpcMessage::Response(
                JsonRpcResponse { jsonrpc: resp.jsonrpc, id: id.duplicate(), result: resp.result },
            ),
            JsonRpcMessage::ErrorResponse(resp) => JsonRpcMessage::ErrorResponse(
                JsonRpcErrorResponse {
                    jsonrpc: resp.jsonrpc,
                    id: id.duplicate(),
                    error: resp.error,
                },
            ),
            other => other,
        }
    }

    /// A copy of the message.
    pub fn duplicate(&self) -> (r: JsonRpcMessage)
        ensures
            r@ == self@,
    {
        match self {
            JsonRpcMessage::Request(m) => JsonRpcMessage::Request(
                JsonRpcRequest {
                    jsonrpc: m.jsonrpc.clone(),
                    id: m.id.duplicate(),
                    method: m.method.clone(),
                    params: duplicate_opt(&m.params),
                },
            ),
            JsonRpcMessage::Response(m) => JsonRpcMessage::Response(
                JsonRpcResponse {
                    jsonrpc: m.jsonrpc.clone(),
                    id: m.id.duplicate(),
                    result: m.result.duplicate(),
                },
            ),
            JsonRpcMessage::ErrorResponse(m) => JsonRpcMessage::ErrorResponse(
                JsonRpcErrorResponse {
                    jsonrpc: m.jsonrpc.clone(),
                    id: m.id.duplicate(),
                    error: JsonRpcError {
                        code: m.error.code,
                        message: m.error.message.clone(),
                        data: duplicate_opt(&m.error.data),
                    },
                },
            ),
            JsonRpcMessage::Notification(n) => JsonRpcMessage::Notification(n.duplicate()),
        }
    }
}

/// Answering as the id that a response already carries leaves it unchanged, and the id that was
/// set last is the one that stays.
pub proof fn answered_as_law(m: MessageV, a: JsonV, b: JsonV)
    ensures
        m.answered_as(a).answered_as(b) == m.answered_as(b),
        m.is_response() ==> m.answered_as(a).id() == Some(a),
        m.is_response() ==> m.answered_as(m.id().unwrap()) == m,
{
}

} // verus!
