//! JSON-RPC framing of the stdio server: which lines are requests, which method
//! a request names, and the responses it gets.
use vstd::prelude::*;
use serde_json::Value;
use crate::text::{str_concat, str_eq, trim, trimmed};

verus! {

/// `serde_json::Value`, carried through opaque: a request id, a result.
#[verifier::external_type_specification]
#[verifier::external_body]
pub struct ExValue(Value);

/// JSON-RPC error code for a line that is not a JSON request.
pub const PARSE_ERROR: i32 = -32700;

/// JSON-RPC error code for an unknown method.
pub const METHOD_NOT_FOUND: i32 = -32601;

/// The error member of a response.
#[derive(Debug)]
pub struct RpcError {
    pub code: i32,
    pub message: String,
}

/// A JSON-RPC response; exactly one of `result` and `error` is present.
#[derive(Debug)]
pub struct Response {
    pub jsonrpc: String,
    pub id: Value,
    pub result: Option<Value>,
    pub error: Option<RpcError>,
}

impl Response {
    /// A success response to the request `id`.
    pub fn ok(id: Value, result: Value) -> (r: Response)
        ensures
            r.jsonrpc@ == "2.0"@,
            r.id == id,
            r.result == Some(result),
            r.error is None,
    {
        Response { jsonrpc: String::from_str("2.0"), id, result: Some(result), error: None }
    }

    /// An error response to the request `id`.
    pub fn err(id: Value, code: i32, message: String) -> (r: Response)
        ensures
            r.jsonrpc@ == "2.0"@,
            r.id == id,
            r.result is None,
            r.error == Some(RpcError { code, message }),
    {
        Response { jsonrpc: String::from_str("2.0"), id, result: None, error: Some(RpcError { code, message }) }
    }
}

/// What the server does with a request, by its method.
#[derive(Debug, Clone, Copy, PartialEq, Eq, Structural)]
pub enum Route {
    /// `initialize`: answer with the server's description.
    Initialize,
    /// `notifications/initialized`: a notification; no answer.
    Initialized,
    /// `tools/list`: answer with the tool catalog.
    ToolsList,
    /// `tools/call`: run a tool.
    ToolsCall,
    /// Anything else: answer with "method not found".
    Unknown,
}

/// The route of the method `m`.
pub open spec fn spec_route(m: Seq<char>) -> Route {
    if m == "initialize"@ {
        Route::Initialize
    } else if m == "notifications/initialized"@ {
        Route::Initialized
    } else if m == "tools/list"@ {
        Route::ToolsList
    } else if m == "tools/call"@ {
        Route::ToolsCall
    } else {
        Route::Unknown
    }
}

/// Each of the four methods the server knows takes its own route, by its exact
/// name, and every other method is answered as unknown.
pub proof fn lemma_route_by_name(m: Seq<char>)
    ensures
        spec_route(m) == Route::Initialize <==> m == "initialize"@,
        spec_route(m) == Route::Initialized <==> m == "notifications/initialized"@,
        spec_route(m) == Route::ToolsList <==> m == "tools/list"@,
        spec_route(m) == Route::ToolsCall <==> m == "tools/call"@,
        spec_route(m) == Route::Unknown <==> (m != "initialize"@ && m != "notifications/initialized"@
            && m != "tools/list"@ && m != "tools/call"@),
{
    reveal_strlit("initialize");
    reveal_strlit("notifications/initialized");
    reveal_strlit("tools/list");
    reveal_strlit("tools/call");
    assert("initialize"@.len() != "notifications/initialized"@.len());
    assert("initialize"@[0] != "tools/list"@[0]);
    assert("initialize"@[0] != "tools/call"@[0]);
    assert("notifications/initialized"@.len() != "tools/list"@.len());
    assert("notifications/initialized"@.len() != "tools/call"@.len());
    assert("tools/list"@[6] != "tools/call"@[6]);
}

/// The route of a request's method.
pub fn route_method(method: &str) -> (r: Route)
    ensures
        r == spec_route(method@),
{
    if str_eq(method, "initialize") {
        Route::Initialize
    } else if str_eq(method, "notifications/initialized") {
        Route::Initialized
    } else if str_eq(method, "tools/list") {
        Route::ToolsList
    } else if str_eq(method, "tools/call") {
        Route::ToolsCall
    } else {
        Route::Unknown
    }
}

/// The request text of an input line: the line without surrounding whitespace,
/// or `None` for a blank line, which is skipped.
pub fn request_text(line: &str) -> (r: Option<String>)
    ensures
        trimmed(line@).len() == 0 ==> r is None,
        trimmed(line@).len() > 0 ==> (r matches Some(t) && t@ == trimmed(line@)),
{
    let t = trim(line);
    if t.as_str().unicode_len() == 0 {
        None
    } else {
        Some(t)
    }
}

/// The error message for a line that is not a request.
pub fn parse_error_message(detail: &str) -> (r: String)
    ensures
        r@ == "Parse error: "@ + detail@,
{
    str_concat("Parse error: ", detail)
}

/// The error message for an unknown method.
pub fn method_not_found_message(method: &str) -> (r: String)
    ensures
        r@ == "Method not found: "@ + method@,
{
    str_concat("Method not found: ", method)
}

/// The text a failed tool call answers with.
pub fn tool_failure_text(message: &str) -> (r: String)
    ensures
        r@ == "Error: "@ + message@,
{
    str_concat("Error: ", message)
}

/// The tool name of a `tools/call` request: its `name` parameter, or empty.
pub fn call_name(name: Option<String>) -> (r: String)
    ensures
        match name {
            Some(n) => r == n,
            None => r@ == Seq::<char>::empty(),
        },
{
    match name {
        Some(n) => n,
        None => String::new(),
    }
}

/// How the server describes itself in answer to `initialize`.
#[derive(Debug)]
pub struct ServerInfo {
    pub protocol_version: String,
    pub name: String,
    pub version: String,
}

/// The server's description.
pub fn server_info() -> (r: ServerInfo)
    ensures
        r.protocol_version@ == "2024-11-05"@,
        r.name@ == "email-tool"@,
        r.version@ == "0.1.0"@,
{
    ServerInfo {
        protocol_version: String::from_str("2024-11-05"),
        name: String::from_str("email-tool"),
        version: String::from_str("0.1.0"),
    }
}

} // verus!
