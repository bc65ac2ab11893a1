//! The line-framed JSON-RPC exchange with a bridge process: requests and
//! their ids, responses, and which waiting call a response belongs to.

use vstd::prelude::*;
use std::collections::HashMap;
use crate::error::BridgeError;
use crate::json::JsonValue;
use crate::text::{join2, join3, signed_decimal, signed_text};

verus! {

/// The request could not be read.
pub const PARSE_ERROR: i32 = -32700;

/// The bridge knows no such method.
pub const METHOD_NOT_FOUND: i32 = -32601;

/// The parameters do not fit the method.
pub const INVALID_PARAMS: i32 = -32602;

/// A function of the registry reported an error.
pub const FUNCTION_ERROR: i32 = -32000;

/// An assertion of the registry reported an error.
pub const ASSERTION_ERROR: i32 = -32001;

/// A hook of the registry reported an error.
pub const HOOK_ERROR: i32 = -32002;

/// A request to a bridge.
#[derive(Debug, Clone)]
pub struct RpcRequest {
    pub jsonrpc: String,
    pub id: u64,
    pub method: String,
    pub params: JsonValue,
}

/// The error of a response.
#[derive(Debug, Clone)]
pub struct RpcError {
    pub code: i32,
    pub message: String,
}

/// A response of a bridge.
#[derive(Debug, Clone)]
pub struct RpcResponse {
    pub jsonrpc: String,
    pub id: u64,
    pub result: Option<JsonValue>,
    pub error: Option<RpcError>,
}

impl RpcResponse {
    /// The response to the request `id` that hands back `result`.
    pub fn success(id: u64, result: JsonValue) -> (r: Self)
        ensures
            r.jsonrpc@ == "2.0"@,
            r.id == id,
            r.result == Some(result),
            r.error is None,
    {
        RpcResponse { jsonrpc: "2.0".to_string(), id, result: Some(result), error: None }
    }

    /// The response to the request `id` that reports an error.
    pub fn error(id: u64, code: i32, message: &str) -> (r: Self)
        ensures
            r.jsonrpc@ == "2.0"@,
            r.id == id,
            r.result is None,
            r.error matches Some(e) && e.code == code && e.message@ == message@,
    {
        RpcResponse {
            jsonrpc: "2.0".to_string(),
            id,
            result: None,
            error: Some(RpcError { code, message: message.to_string() }),
        }
    }
}

/// A function that a registry offers.
#[derive(Debug, Clone)]
pub struct FunctionInfo {
    pub name: String,
    pub description: String,
}

impl FunctionInfo {
    /// The function `name`, described by `description`.
    pub fn new(name: &str, description: &str) -> (info: Self)
        ensures
            info.name@ == name@,
            info.description@ == description@,
    {
        FunctionInfo { name: name.to_string(), description: description.to_string() }
    }
}

/// A method that a Java registry offers.
#[derive(Debug, Clone)]
pub struct MethodInfo {
    pub name: String,
    pub description: String,
}

impl MethodInfo {
    /// The method `name`, described by `description`.
    pub fn new(name: &str, description: &str) -> (info: Self)
        ensures
            info.name@ == name@,
            info.description@ == description@,
    {
        MethodInfo { name: name.to_string(), description: description.to_string() }
    }
}

/// The counter that gives every request of a process its id. Ids begin at
/// 1 and rise by one.
#[derive(Debug)]
pub struct RequestIds {
    next: u64,
}

impl RequestIds {
    /// The id that the next request gets.
    pub closed spec fn upcoming(&self) -> nat {
        self.next as nat
    }

    /// A counter whose first id is 1.
    pub fn new() -> (ids: Self)
        ensures
            ids.upcoming() == 1,
    {
        RequestIds { next: 1 }
    }

    /// Takes the next id. After the last id that 64 bits hold, counting
    /// begins again at 0.
    pub fn take(&mut self) -> (id: u64)
        ensures
            id == old(self).upcoming(),
            final(self).upcoming() == if old(self).upcoming() == u64::MAX {
                0
            } else {
                old(self).upcoming() + 1
            },
    {
        let id = self.next;
        self.next = if id == u64::MAX {
            0
        } else {
            id + 1
        };
        id
    }
}

/// A new request for `method`, with the next id of `ids`.
pub fn new_request(ids: &mut RequestIds, method: &str, params: JsonValue) -> (request: RpcRequest)
    ensures
        request.jsonrpc@ == "2.0"@,
        request.id == old(ids).upcoming(),
        request.method@ == method@,
        request.params == params,
        final(ids).upcoming() == if old(ids).upcoming() == u64::MAX {
            0
        } else {
            old(ids).upcoming() + 1
        },
{
    let id = ids.take();
    RpcRequest { jsonrpc: "2.0".to_string(), id, method: method.to_string(), params }
}

/// How the error of a response reads: the code in brackets, then the
/// message.
pub open spec fn server_error_text(code: int, message: Seq<char>) -> Seq<char> {
    "["@ + signed_text(code) + "] "@ + message
}

/// What the call that a response belongs to comes to: the error of the
/// response as a server error, else its result, or null where it has none.
pub fn outcome(response: RpcResponse) -> (r: Result<JsonValue, BridgeError>)
    ensures
        match response.error {
            Some(error) => r matches Err(BridgeError::ServerError(text)) && text@
                == server_error_text(error.code as int, error.message@),
            None => match response.result {
                Some(value) => r == Ok::<JsonValue, BridgeError>(value),
                None => r matches Ok(JsonValue::Null),
            },
        },
{
    match response.error {
        Some(error) => {
            let code = signed_decimal(error.code as i64);
            let head = join3("[", code.as_str(), "] ");
            Err(BridgeError::ServerError(join2(head.as_str(), error.message.as_str())))
        },
        None => match response.result {
            Some(value) => Ok(value),
            None => Ok(JsonValue::Null),
        },
    }
}

/// The calls that wait for a response, each under the id of its request.
pub struct PendingCalls<T> {
    slots: HashMap<u64, T>,
}

impl<T> View for PendingCalls<T> {
    type V = Map<u64, T>;

    closed spec fn view(&self) -> Map<u64, T> {
        self.slots@
    }
}

impl<T> PendingCalls<T> {
    /// No call waits.
    pub fn new() -> (calls: Self)
        ensures
            calls@ == Map::<u64, T>::empty(),
    {
        PendingCalls { slots: HashMap::new() }
    }

    /// Lets `slot` wait for the response to the request `id`.
    pub fn register(&mut self, id: u64, slot: T)
        ensures
            final(self)@ == old(self)@.insert(id, slot),
    {
        broadcast use vstd::std_specs::hash::group_hash_axioms;

        self.slots.insert(id, slot);
    }

    /// The call that waits for the response `id`, which no longer waits
    /// after this. A response to an id for which no call waits finds
    /// nothing and changes nothing.
    pub fn resolve(&mut self, id: u64) -> (slot: Option<T>)
        ensures
            match slot {
                Some(s) => old(self)@.contains_key(id) && s == old(self)@[id],
                None => !old(self)@.contains_key(id),
            },
            final(self)@ == old(self)@.remove(id),
    {
        broadcast use vstd::std_specs::hash::group_hash_axioms;

        self.slots.remove(&id)
    }

    /// How many calls wait.
    pub fn len(&self) -> (n: usize)
        ensures
            n == self@.len(),
    {
        broadcast use vstd::std_specs::hash::group_hash_axioms;

        self.slots.len()
    }
}

} // verus!
