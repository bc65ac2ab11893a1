//! What the engine sends to a bridge that runs a registry: one request
//! for each operation, with the parameters in the shape that the
//! registries read.

use vstd::prelude::*;
use crate::bridge::{admit_operation, method_of, operation_name, rpc_method, supported, Operation};
use crate::error::BridgeError;
use crate::job::{NumberTree, NumberValue};
use crate::json::{entries_view, JsonTree, JsonValue};
use crate::mock_clock::ClockSyncState;
use crate::namemap::NameMap;
use crate::platform::Platform;
use crate::rpc::{new_request, RequestIds, RpcRequest};

verus! {

/// An operation of a bridge, with what it is about.
#[derive(Debug)]
pub enum BridgeCall {
    Call { name: String, args: JsonValue },
    CtxGet { key: String },
    CtxSet { key: String, value: JsonValue },
    CtxClear { pattern: String },
    MockSet { target: String, value: JsonValue },
    MockClear,
    HookCall { hook: String },
    AssertCustom { name: String, params: Vec<(String, JsonValue)> },
    SetExecutionInfo { run_id: String, job_name: String, step_name: String },
    SyncStepOutputs { step_id: String, outputs: NameMap<String> },
    SyncClock(ClockSyncState),
}

/// A whole number as JSON holds it: without a sign where it has none.
pub open spec fn integer_tree(n: int) -> JsonTree {
    if n >= 0 {
        JsonTree::Number(NumberTree::UInt(n))
    } else {
        JsonTree::Number(NumberTree::Int(n))
    }
}

/// A string, or null where there is none.
pub open spec fn text_or_null(text: Option<String>) -> JsonTree {
    match text {
        Some(t) => JsonTree::Text(t@),
        None => JsonTree::Null,
    }
}

/// The state of the clock as the bridges read it.
pub open spec fn clock_tree(state: ClockSyncState) -> JsonTree {
    JsonTree::Object(
        seq![
            ("frozen"@, JsonTree::Bool(state.frozen)),
            ("timezone_offset_secs"@, integer_tree(state.timezone_offset_secs as int)),
            ("virtual_time_iso"@, text_or_null(state.virtual_time_iso)),
            (
                "virtual_time_ms"@,
                match state.virtual_time_ms {
                    Some(ms) => integer_tree(ms as int),
                    None => JsonTree::Null,
                },
            ),
        ],
    )
}

/// The entries of a map of strings as the entries of an object, in the
/// order of the map.
pub open spec fn text_entries(pairs: Seq<(Seq<char>, String)>) -> Seq<(Seq<char>, JsonTree)> {
    Seq::new(pairs.len(), |i: int| (pairs[i].0, JsonTree::Text(pairs[i].1@)))
}

impl BridgeCall {
    /// The operation that the call is a case of.
    pub open spec fn operation(&self) -> Operation {
        match self {
            BridgeCall::Call { .. } => Operation::Call,
            BridgeCall::CtxGet { .. } => Operation::CtxGet,
            BridgeCall::CtxSet { .. } => Operation::CtxSet,
            BridgeCall::CtxClear { .. } => Operation::CtxClear,
            BridgeCall::MockSet { .. } => Operation::MockSet,
            BridgeCall::MockClear => Operation::MockClear,
            BridgeCall::HookCall { .. } => Operation::HookCall,
            BridgeCall::AssertCustom { .. } => Operation::AssertCustom,
            BridgeCall::SetExecutionInfo { .. } => Operation::SetExecutionInfo,
            BridgeCall::SyncStepOutputs { .. } => Operation::SyncStepOutputs,
            BridgeCall::SyncClock(_) => Operation::SyncClock,
        }
    }

    /// The parameters of the request that carries the call: an object
    /// with one member for each thing that the call is about.
    pub open spec fn params(&self) -> JsonTree {
        match self {
            BridgeCall::Call { name, args } => JsonTree::Object(
                seq![("args"@, args@), ("name"@, JsonTree::Text(name@))],
            ),
            BridgeCall::CtxGet { key } => JsonTree::Object(seq![("key"@, JsonTree::Text(key@))]),
            BridgeCall::CtxSet { key, value } => JsonTree::Object(
                seq![("key"@, JsonTree::Text(key@)), ("value"@, value@)],
            ),
            BridgeCall::CtxClear { pattern } => JsonTree::Object(
                seq![("pattern"@, JsonTree::Text(pattern@))],
            ),
            BridgeCall::MockSet { target, value } => JsonTree::Object(
                seq![("target"@, JsonTree::Text(target@)), ("value"@, value@)],
            ),
            BridgeCall::MockClear => JsonTree::Object(Seq::empty()),
            BridgeCall::HookCall { hook } => JsonTree::Object(
                seq![("hook"@, JsonTree::Text(hook@))],
            ),
            BridgeCall::AssertCustom { name, params } => JsonTree::Object(
                seq![
                    ("name"@, JsonTree::Text(name@)),
                    ("params"@, JsonTree::Object(entries_view(params@))),
                ],
            ),
            BridgeCall::SetExecutionInfo { run_id, job_name, step_name } => JsonTree::Object(
                seq![
                    ("jobName"@, JsonTree::Text(job_name@)),
                    ("runId"@, JsonTree::Text(run_id@)),
                    ("stepName"@, JsonTree::Text(step_name@)),
                ],
            ),
            BridgeCall::SyncStepOutputs { step_id, outputs } => JsonTree::Object(
                seq![
                    ("outputs"@, JsonTree::Object(text_entries(outputs.pairs()))),
                    ("stepId"@, JsonTree::Text(step_id@)),
                ],
            ),
            BridgeCall::SyncClock(state) => clock_tree(*state),
        }
    }

    /// The operation that the call is a case of.
    pub fn kind(&self) -> (op: Operation)
        ensures
            op == self.operation(),
    {
        match self {
            BridgeCall::Call { .. } => Operation::Call,
            BridgeCall::CtxGet { .. } => Operation::CtxGet,
            BridgeCall::CtxSet { .. } => Operation::CtxSet,
            BridgeCall::CtxClear { .. } => Operation::CtxClear,
            BridgeCall::MockSet { .. } => Operation::MockSet,
            BridgeCall::MockClear => Operation::MockClear,
            BridgeCall::HookCall { .. } => Operation::HookCall,
            BridgeCall::AssertCustom { .. } => Operation::AssertCustom,
            BridgeCall::SetExecutionInfo { .. } => Operation::SetExecutionInfo,
            BridgeCall::SyncStepOutputs { .. } => Operation::SyncStepOutputs,
            BridgeCall::SyncClock(_) => Operation::SyncClock,
        }
    }
}

/// Whether `request` carries `params` to `method` under the id that was
/// next in `before`, and `after` is the counter from which that id was
/// taken.
pub open spec fn carries(
    request: RpcRequest,
    before: RequestIds,
    after: RequestIds,
    method: Seq<char>,
    params: JsonTree,
) -> bool {
    request.jsonrpc@ == "2.0"@ && request.id == before.upcoming() && request.method@ == method
        && request.params@ == params && after.upcoming() == (if before.upcoming() == u64::MAX {
        0
    } else {
        before.upcoming() + 1
    })
}

/// The members of an object that is written with its keys as literals.
pub open spec fn members(list: Seq<(&str, JsonValue)>) -> Seq<(Seq<char>, JsonTree)> {
    Seq::new(list.len(), |i: int| (list[i].0@, list[i].1@))
}

/// The object with the members `list`, in their order.
pub fn object_of(list: Vec<(&str, JsonValue)>) -> (r: JsonValue)
    ensures
        r@ == JsonTree::Object(members(list@)),
{
    let ghost wanted = members(list@);
    let mut entries: Vec<(String, JsonValue)> = Vec::new();
    for member in it: list
        invariant
            entries.len() == it.index(),
            wanted == members(it.seq()),
            forall|j: int|
                0 <= j < entries.len() ==> (#[trigger] entries[j]).0@ == wanted[j].0
                    && entries[j].1@ == wanted[j].1,
    {
        entries.push((member.0.to_string(), member.1));
    }
    assert(entries_view(entries@) =~= wanted);
    JsonValue::object(entries)
}

/// A whole number as JSON holds it.
pub fn integer(n: i64) -> (r: JsonValue)
    ensures
        r@ == integer_tree(n as int),
{
    if n >= 0 {
        JsonValue::Number(NumberValue::UInt(n as u64))
    } else {
        JsonValue::Number(NumberValue::Int(n))
    }
}

/// An object with one member.
fn object1(k: &str, v: JsonValue) -> (r: JsonValue)
    ensures
        r@ == JsonTree::Object(seq![(k@, v@)]),
{
    let entries = vec![(k.to_string(), v)];
    assert(entries_view(entries@) =~= seq![(k@, v@)]);
    JsonValue::object(entries)
}

/// An object with two members.
fn object2(k0: &str, v0: JsonValue, k1: &str, v1: JsonValue) -> (r: JsonValue)
    ensures
        r@ == JsonTree::Object(seq![(k0@, v0@), (k1@, v1@)]),
{
    let entries = vec![(k0.to_string(), v0), (k1.to_string(), v1)];
    assert(entries_view(entries@) =~= seq![(k0@, v0@), (k1@, v1@)]);
    JsonValue::object(entries)
}

/// The entries of a map of strings as an object.
pub fn texts_object(map: &NameMap<String>) -> (r: JsonValue)
    ensures
        r@ == JsonTree::Object(text_entries(map.pairs())),
{
    let mut entries: Vec<(String, JsonValue)> = Vec::new();
    let mut i: usize = 0;
    while i < map.len()
        invariant
            i <= map.pairs().len(),
            entries.len() == i,
            forall|j: int|
                0 <= j < i ==> (#[trigger] entries[j]).0@ == map.pairs()[j].0 && entries[j].1@
                    == JsonTree::Text(map.pairs()[j].1@),
        decreases map.pairs().len() - i,
    {
        let name = map.name_at(i).clone();
        let value = map.value_at(i).clone();
        entries.push((name, JsonValue::Text(value)));
        i = i + 1;
    }
    assert(entries_view(entries@) =~= text_entries(map.pairs()));
    JsonValue::object(entries)
}

/// The state of the clock as the bridges read it.
pub fn clock_params(state: ClockSyncState) -> (r: JsonValue)
    ensures
        r@ == clock_tree(state),
{
    let iso = match state.virtual_time_iso {
        Some(t) => JsonValue::Text(t),
        None => JsonValue::Null,
    };
    let ms = match state.virtual_time_ms {
        Some(ms) => integer(ms),
        None => JsonValue::Null,
    };
    let entries = vec![
        ("frozen".to_string(), JsonValue::Bool(state.frozen)),
        ("timezone_offset_secs".to_string(), integer(state.timezone_offset_secs as i64)),
        ("virtual_time_iso".to_string(), iso),
        ("virtual_time_ms".to_string(), ms),
    ];
    assert(entries_view(entries@) =~= clock_tree(state)->Object_0);
    JsonValue::object(entries)
}

/// The parameters of the request that carries `call`.
pub fn call_params(call: BridgeCall) -> (r: JsonValue)
    ensures
        r@ == call.params(),
{
    match call {
        BridgeCall::Call { name, args } => object2("args", args, "name", JsonValue::Text(name)),
        BridgeCall::CtxGet { key } => object1("key", JsonValue::Text(key)),
        BridgeCall::CtxSet { key, value } => object2("key", JsonValue::Text(key), "value", value),
        BridgeCall::CtxClear { pattern } => object1("pattern", JsonValue::Text(pattern)),
        BridgeCall::MockSet { target, value } => object2(
            "target",
            JsonValue::Text(target),
            "value",
            value,
        ),
        BridgeCall::MockClear => {
            let entries: Vec<(String, JsonValue)> = Vec::new();
            assert(entries_view(entries@) =~= Seq::<(Seq<char>, JsonTree)>::empty());
            JsonValue::object(entries)
        },
        BridgeCall::HookCall { hook } => object1("hook", JsonValue::Text(hook)),
        BridgeCall::AssertCustom { name, params } => object2(
            "name",
            JsonValue::Text(name),
            "params",
            JsonValue::object(params),
        ),
        BridgeCall::SetExecutionInfo { run_id, job_name, step_name } => {
            let entries = vec![
                ("jobName".to_string(), JsonValue::Text(job_name)),
                ("runId".to_string(), JsonValue::Text(run_id)),
                ("stepName".to_string(), JsonValue::Text(step_name)),
            ];
            assert(entries_view(entries@) =~= seq![
                ("jobName"@, JsonTree::Text(job_name@)),
                ("runId"@, JsonTree::Text(run_id@)),
                ("stepName"@, JsonTree::Text(step_name@)),
            ]);
            JsonValue::object(entries)
        },
        BridgeCall::SyncStepOutputs { step_id, outputs } => object2(
            "outputs",
            texts_object(&outputs),
            "stepId",
            JsonValue::Text(step_id),
        ),
        BridgeCall::SyncClock(state) => clock_params(state),
    }
}

/// The request that carries `call` to the bridge of `platform`. A call
/// that the bridge does not have is refused, and no id is spent on it.
pub fn request(platform: Platform, ids: &mut RequestIds, call: BridgeCall) -> (r: Result<
    RpcRequest,
    BridgeError,
>)
    ensures
        match r {
            Ok(request) => supported(platform, call.operation()) && request.jsonrpc@ == "2.0"@
                && request.id == old(ids).upcoming() && request.method@ == method_of(
                platform,
                call.operation(),
            ) && request.params@ == call.params() && final(ids).upcoming() == (if old(
                ids,
            ).upcoming() == u64::MAX {
                0
            } else {
                old(ids).upcoming() + 1
            }),
            Err(e) => !supported(platform, call.operation()) && (e
                matches BridgeError::UnsupportedAction(name) && name@ == operation_name(
                call.operation(),
            )) && final(ids).upcoming() == old(ids).upcoming(),
        },
{
    let op = call.kind();
    match admit_operation(platform, op) {
        Err(e) => Err(e),
        Ok(_) => Ok(new_request(ids, rpc_method(platform, op), call_params(call))),
    }
}

/// The request that hands the state of the clock to a registry, whatever
/// the bridge says of its clock.
pub fn clock_request(ids: &mut RequestIds, state: ClockSyncState) -> (request: RpcRequest)
    ensures
        carries(
            request,
            *old(ids),
            *final(ids),
            "clock.sync"@,
            clock_tree(state),
        ),
{
    new_request(ids, "clock.sync", clock_params(state))
}

/// The request that calls `name` on `args` under the method `method`.
pub fn function_request(ids: &mut RequestIds, method: &str, name: &str, args: JsonValue) -> (request:
    RpcRequest)
    ensures
        carries(
            request,
            *old(ids),
            *final(ids),
            method@,
            JsonTree::Object(seq![("args"@, args@), ("name"@, JsonTree::Text(name@))]),
        ),
{
    new_request(ids, method, object2("args", args, "name", JsonValue::text(name)))
}

/// The method that lists what a registry holds: its assertions, or else
/// its functions, which a Java registry calls methods.
pub open spec fn listing_method(platform: Platform, assertions: bool) -> Seq<char> {
    if assertions {
        "list_assertions"@
    } else if platform == Platform::Java {
        "list_methods"@
    } else {
        "list_functions"@
    }
}

/// The key under which the answer to a listing holds the list.
pub open spec fn listing_key(platform: Platform, assertions: bool) -> Seq<char> {
    if assertions {
        "assertions"@
    } else if platform == Platform::Java {
        "methods"@
    } else {
        "functions"@
    }
}

/// The key under which the answer to a listing holds the list.
pub fn list_key(platform: Platform, assertions: bool) -> (key: &'static str)
    ensures
        key@ == listing_key(platform, assertions),
{
    if assertions {
        "assertions"
    } else if matches!(platform, Platform::Java) {
        "methods"
    } else {
        "functions"
    }
}

/// The request that asks a registry what it holds. Its parameters are an
/// empty object.
pub fn list_request(platform: Platform, ids: &mut RequestIds, assertions: bool) -> (request:
    RpcRequest)
    ensures
        carries(
            request,
            *old(ids),
            *final(ids),
            listing_method(platform, assertions),
            JsonTree::Object(Seq::empty()),
        ),
{
    let method = if assertions {
        "list_assertions"
    } else if matches!(platform, Platform::Java) {
        "list_methods"
    } else {
        "list_functions"
    };
    let entries: Vec<(String, JsonValue)> = Vec::new();
    assert(entries_view(entries@) =~= Seq::<(Seq<char>, JsonTree)>::empty());
    new_request(ids, method, JsonValue::object(entries))
}

} // verus!
