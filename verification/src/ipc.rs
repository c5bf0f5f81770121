//! The stdio JSON-RPC 2.0 domain between the main process and its sidecar. Every `id` is a
//! string.

use vstd::prelude::*;
use vstd::string::*;
use crate::json::JsonValue;

verus! {

/// The JSON-RPC protocol version.
pub const JSONRPC_VERSION: &'static str = "2.0";

/// The health check method.
pub const METHOD_HEALTH_PING: &'static str = "health.ping";

/// A request (main process to sidecar).
#[derive(Debug, PartialEq)]
pub struct IpcRequest {
    /// Always `"2.0"`.
    pub jsonrpc: String,
    pub id: String,
    /// The method name.
    pub method: String,
    pub params: Option<JsonValue>,
}

/// An error object.
#[derive(Debug, PartialEq)]
pub struct IpcError {
    pub code: i32,
    pub message: String,
    pub data: Option<JsonValue>,
}

/// A response (sidecar to main process; exactly one of `result` and `error`).
#[derive(Debug, PartialEq)]
pub struct IpcResponse {
    pub jsonrpc: String,
    /// The id of the request answered.
    pub id: String,
    pub result: Option<JsonValue>,
    pub error: Option<IpcError>,
}

/// A notification (no id, no answer).
#[derive(Debug, PartialEq)]
pub struct IpcNotification {
    pub jsonrpc: String,
    pub method: String,
    pub params: Option<JsonValue>,
}

/// A health check request (`health.ping`).
#[derive(Debug, Clone, PartialEq)]
pub struct IpcHealthRequest {
    pub jsonrpc: String,
    pub id: String,
    pub method: String,
}

impl IpcHealthRequest {
    /// A `health.ping` request with the given id.
    pub fn new(id: &str) -> (r: Self)
        ensures
            r.jsonrpc@ == JSONRPC_VERSION@,
            r.id@ == id@,
            r.method@ == METHOD_HEALTH_PING@,
    {
        IpcHealthRequest {
            jsonrpc: JSONRPC_VERSION.to_owned(),
            id: id.to_owned(),
            method: METHOD_HEALTH_PING.to_owned(),
        }
    }
}

/// The health check result.
#[derive(Debug, Clone, PartialEq)]
pub struct IpcHealthResult {
    /// `"ok"`.
    pub status: String,
}

/// The health check answer: a successful JSON-RPC 2.0 response of the same id.
#[derive(Debug, Clone, PartialEq)]
pub struct IpcHealthResponse {
    pub jsonrpc: String,
    pub id: String,
    pub result: IpcHealthResult,
}

impl IpcHealthResponse {
    /// The answer to a ping: same id, status `ok`.
    pub fn pong(request: &IpcHealthRequest) -> (r: Self)
        ensures
            r.jsonrpc@ == JSONRPC_VERSION@,
            r.id@ == request.id@,
            r.result.status@ == "ok"@,
    {
        IpcHealthResponse {
            jsonrpc: JSONRPC_VERSION.to_owned(),
            id: request.id.clone(),
            result: IpcHealthResult { status: "ok".to_owned() },
        }
    }
}

} // verus!
