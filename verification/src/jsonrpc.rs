//! JSON-RPC 2.0 envelope: requests, responses, canonical error objects.

use vstd::prelude::*;

use crate::json::{spec_get, Json};

verus! {

/// Request identifier: a string, an integer, or absent (`null`).
/// Absent and `null` identifiers are treated identically.
#[derive(Debug, PartialEq)]
pub enum Id {
    Str(String),
    Int(i64),
    Absent,
}

pub struct Request {
    pub jsonrpc: String,
    pub id: Id,
    pub method: String,
    pub params: Json,
}

pub struct Response {
    pub jsonrpc: String,
    pub id: Id,
    pub result: Option<Json>,
    pub error: Option<ErrorObject>,
}

pub struct ErrorObject {
    pub code: i32,
    pub message: String,
    pub data: Option<Json>,
}

#[derive(Debug, PartialEq)]
pub enum JsonRpcError {
    Invalid(String),
    Upstream(String),
}

/// A batch of requests, answered as one JSON array of responses.
pub struct Batch(pub Vec<Request>);

pub fn default_jsonrpc() -> (r: String)
    ensures
        r@ == "2.0"@,
{
    "2.0".to_owned()
}

impl Response {
    /// Success envelope: carries `value`, echoes `id`, never an error.
    pub fn result(id: Id, value: Json) -> (r: Response)
        ensures
            r.jsonrpc@ == "2.0"@,
            r.id == id,
            r.result == Option::Some(value),
            r.error is None,
    {
        Response { jsonrpc: default_jsonrpc(), id, result: Some(value), error: None }
    }

    /// Error envelope: carries `error`, echoes `id`, never a result.
    pub fn error(id: Id, error: ErrorObject) -> (r: Response)
        ensures
            r.jsonrpc@ == "2.0"@,
            r.id == id,
            r.result is None,
            r.error == Option::Some(error),
    {
        Response { jsonrpc: default_jsonrpc(), id, result: None, error: Some(error) }
    }
}

impl ErrorObject {
    /// Code -32602: missing or malformed params.
    pub fn invalid_params(message: &str) -> (r: ErrorObject)
        ensures
            r.code == -32602,
            r.message@ == message@,
            r.data is None,
    {
        ErrorObject { code: -32602, message: message.to_owned(), data: None }
    }

    /// Code -32603: internal error.
    pub fn internal(message: &str) -> (r: ErrorObject)
        ensures
            r.code == -32603,
            r.message@ == message@,
            r.data is None,
    {
        ErrorObject { code: -32603, message: message.to_owned(), data: None }
    }

    pub fn custom(code: i32, message: String, data: Option<Json>) -> (r: ErrorObject)
        ensures
            r.code == code,
            r.message == message,
            r.data == data,
    {
        ErrorObject { code, message, data }
    }
}

impl Request {
    /// A fresh internal request with integer id 0.
    pub fn new(method: &str, params: Json) -> (r: Request)
        ensures
            r.jsonrpc@ == "2.0"@,
            r.id == Id::Int(0i64),
            r.method@ == method@,
            r.params == params,
    {
        Request { jsonrpc: default_jsonrpc(), id: Id::Int(0), method: method.to_owned(), params }
    }
}

/// An acknowledgement response: result `{"ok": true}`, no id.
pub fn ok() -> (r: Response)
    ensures
        r.jsonrpc@ == "2.0"@,
        r.id == Id::Absent,
        r.error is None,
        (r.result matches Option::Some(j) && spec_get(j, "ok"@) == Option::Some(Json::Bool(true))),
{
    let mut fields: Vec<(String, Json)> = Vec::new();
    fields.push(("ok".to_owned(), Json::Bool(true)));
    Response::result(Id::Absent, Json::Obj(fields))
}

/// Code -32601, message `unknown method: <method>`.
pub fn method_not_found(method: &str) -> (r: Response)
    ensures
        r.jsonrpc@ == "2.0"@,
        r.id == Id::Absent,
        r.result is None,
        (r.error matches Option::Some(e) && e.code == -32601
            && e.message@ == "unknown method: "@ + method@),
{
    let message = "unknown method: ".to_owned().concat(method);
    Response::error(Id::Absent, ErrorObject::custom(-32601, message, None))
}

/// Code -32602 wrapped in a response envelope.
pub fn invalid_params(msg: &str) -> (r: Response)
    ensures
        r.jsonrpc@ == "2.0"@,
        r.id == Id::Absent,
        r.result is None,
        (r.error matches Option::Some(e) && e.code == -32602 && e.message@ == msg@),
{
    Response::error(Id::Absent, ErrorObject::invalid_params(msg))
}

/// What one lower-cased ASCII character is, as a scalar value.
pub open spec fn spec_ascii_lower(u: u32) -> u32 {
    if 65 <= u <= 90 {
        (u + 32) as u32
    } else {
        u
    }
}

/// Relies on str::to_ascii_lowercase: ASCII upper-case letters become
/// lower-case, every other character is kept.
#[verifier::external_body]
fn ascii_lowercase(s: &str) -> (r: String)
    ensures
        r@.len() == s@.len(),
        forall|i: int| 0 <= i < s@.len() ==> (r@[i] as u32) == spec_ascii_lower(s@[i] as u32),
{
    s.to_ascii_lowercase()
}

/// Header names compared case-insensitively: every key lower-cased,
/// values kept. Deliberately a list, not a map: entries whose names
/// collide once case-folded are all kept, in their arrival order, and
/// a caller that wants one value per name takes the first match.
#[verifier::loop_isolation(false)]
pub fn parse_headers(headers: &Vec<(String, String)>) -> (r: Vec<(String, String)>)
    ensures
        r@.len() == headers@.len(),
        forall|i: int| 0 <= i < headers@.len() ==> {
            &&& r@[i].1@ == headers@[i].1@
            &&& r@[i].0@.len() == headers@[i].0@.len()
            &&& forall|k: int| 0 <= k < headers@[i].0@.len()
                ==> (#[trigger] r@[i].0@[k] as u32) == spec_ascii_lower(headers@[i].0@[k] as u32)
        },
{
    let mut out: Vec<(String, String)> = Vec::new();
    let n = headers.len();
    let mut i: usize = 0;
    while i < n
        invariant
            i <= n,
            out@.len() == i,
            forall|q: int| 0 <= q < i ==> {
                &&& out@[q].1@ == headers@[q].1@
                &&& out@[q].0@.len() == headers@[q].0@.len()
                &&& forall|k: int| 0 <= k < headers@[q].0@.len()
                    ==> (#[trigger] out@[q].0@[k] as u32) == spec_ascii_lower(headers@[q].0@[k] as u32)
            },
        decreases n - i,
    {
        let low = ascii_lowercase(headers[i].0.as_str());
        let val = headers[i].1.clone();
        out.push((low, val));
        i = i + 1;
    }
    out
}

} // verus!
