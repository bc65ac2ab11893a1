//! Bridges to the platforms: what each can do, which request stands for
//! which operation, and what a reply holds.

use vstd::prelude::*;
use crate::error::BridgeError;
use crate::json::{JsonTree, JsonValue};
use crate::namemap::NameMap;
use crate::platform::{
    GoConfig, JavaConfig, NodejsConfig, Platform, PlaywrightConfig, PythonConfig, RustConfig,
    WebConfig,
};
use crate::result::ApiResponse;
use crate::rpc::FunctionInfo;

pub mod calls;
pub mod go;
pub mod java;
pub mod nodejs;
pub mod playwright;
pub mod process;
pub mod python;
pub mod rust;

verus! {

/// The configuration of a bridge, by platform.
#[derive(Debug, Clone)]
pub enum BridgeConfig {
    Playwright(PlaywrightConfig),
    Nodejs(NodejsConfig),
    Rust(RustConfig),
    Python(PythonConfig),
    Java(JavaConfig),
    Go(GoConfig),
    Web(WebConfig),
}

impl BridgeConfig {
    /// The platform that the configuration is for.
    pub open spec fn of(&self) -> Platform {
        match self {
            BridgeConfig::Playwright(_) => Platform::Playwright,
            BridgeConfig::Nodejs(_) => Platform::Nodejs,
            BridgeConfig::Rust(_) => Platform::Rust,
            BridgeConfig::Python(_) => Platform::Python,
            BridgeConfig::Java(_) => Platform::Java,
            BridgeConfig::Go(_) => Platform::Go,
            BridgeConfig::Web(_) => Platform::Web,
        }
    }

    /// The platform that the configuration is for.
    pub fn platform(&self) -> (p: Platform)
        ensures
            p == self.of(),
    {
        match self {
            BridgeConfig::Playwright(_) => Platform::Playwright,
            BridgeConfig::Nodejs(_) => Platform::Nodejs,
            BridgeConfig::Rust(_) => Platform::Rust,
            BridgeConfig::Python(_) => Platform::Python,
            BridgeConfig::Java(_) => Platform::Java,
            BridgeConfig::Go(_) => Platform::Go,
            BridgeConfig::Web(_) => Platform::Web,
        }
    }
}

/// What a bridge can do beyond calling a function.
#[derive(Debug, Clone, Copy, PartialEq, Eq, Structural)]
pub struct Capabilities {
    pub context: bool,
    pub hooks: bool,
    pub mocking: bool,
    pub clock: bool,
}

/// The operations of the uniform set.
#[derive(Debug, Clone, Copy, PartialEq, Eq, Structural)]
pub enum Operation {
    Call,
    CtxGet,
    CtxSet,
    CtxClear,
    MockSet,
    MockClear,
    HookCall,
    AssertCustom,
    SetExecutionInfo,
    SyncStepOutputs,
    SyncClock,
}

/// Whether the bridge of `platform` runs a registry in a process of its
/// own.
pub open spec fn has_registry(platform: Platform) -> bool {
    platform != Platform::Playwright && platform != Platform::Web
}

/// What the bridge of `platform` can do.
pub open spec fn capabilities_of(platform: Platform) -> Capabilities {
    Capabilities {
        context: has_registry(platform),
        hooks: has_registry(platform),
        mocking: platform == Platform::Nodejs,
        clock: platform == Platform::Nodejs || platform == Platform::Python || platform
            == Platform::Java,
    }
}

/// Whether the bridge of `platform` has the operation `op`. Every bridge
/// can call; the browser and the HTTP bridge can do nothing else.
pub open spec fn supported(platform: Platform, op: Operation) -> bool {
    match op {
        Operation::Call => true,
        Operation::CtxGet | Operation::CtxSet | Operation::CtxClear => capabilities_of(
            platform,
        ).context,
        Operation::MockSet | Operation::MockClear => capabilities_of(platform).mocking,
        Operation::HookCall => capabilities_of(platform).hooks,
        Operation::AssertCustom | Operation::SetExecutionInfo
        | Operation::SyncStepOutputs => has_registry(platform),
        Operation::SyncClock => capabilities_of(platform).clock,
    }
}

/// What the bridge of `platform` can do.
pub fn capabilities(platform: Platform) -> (c: Capabilities)
    ensures
        c == capabilities_of(platform),
{
    let registry = !matches!(platform, Platform::Playwright | Platform::Web);
    Capabilities {
        context: registry,
        hooks: registry,
        mocking: matches!(platform, Platform::Nodejs),
        clock: matches!(platform, Platform::Nodejs | Platform::Python | Platform::Java),
    }
}

/// Whether the bridge of `platform` has the operation `op`.
pub fn supports(platform: Platform, op: Operation) -> (b: bool)
    ensures
        b == supported(platform, op),
{
    let c = capabilities(platform);
    let registry = !matches!(platform, Platform::Playwright | Platform::Web);
    match op {
        Operation::Call => true,
        Operation::CtxGet | Operation::CtxSet | Operation::CtxClear => c.context,
        Operation::MockSet | Operation::MockClear => c.mocking,
        Operation::HookCall => c.hooks,
        Operation::AssertCustom | Operation::SetExecutionInfo
        | Operation::SyncStepOutputs => registry,
        Operation::SyncClock => c.clock,
    }
}

/// The name under which an operation is refused.
pub open spec fn operation_name(op: Operation) -> Seq<char> {
    match op {
        Operation::Call => "call"@,
        Operation::CtxGet => "ctx_get"@,
        Operation::CtxSet => "ctx_set"@,
        Operation::CtxClear => "ctx_clear"@,
        Operation::MockSet => "mock_set"@,
        Operation::MockClear => "mock_clear"@,
        Operation::HookCall => "hook_call"@,
        Operation::AssertCustom => "assert_custom"@,
        Operation::SetExecutionInfo => "set_execution_info"@,
        Operation::SyncStepOutputs => "sync_step_outputs"@,
        Operation::SyncClock => "sync_clock"@,
    }
}

/// Whether the bridge of `platform` takes the operation `op`: an operation
/// that it does not have is refused, never passed over in silence.
pub fn admit_operation(platform: Platform, op: Operation) -> (r: Result<(), BridgeError>)
    ensures
        match r {
            Ok(_) => supported(platform, op),
            Err(e) => !supported(platform, op) && (e matches BridgeError::UnsupportedAction(name)
                && name@ == operation_name(op)),
        },
{
    if supports(platform, op) {
        return Ok(());
    }
    let name = match op {
        Operation::Call => "call",
        Operation::CtxGet => "ctx_get",
        Operation::CtxSet => "ctx_set",
        Operation::CtxClear => "ctx_clear",
        Operation::MockSet => "mock_set",
        Operation::MockClear => "mock_clear",
        Operation::HookCall => "hook_call",
        Operation::AssertCustom => "assert_custom",
        Operation::SetExecutionInfo => "set_execution_info",
        Operation::SyncStepOutputs => "sync_step_outputs",
        Operation::SyncClock => "sync_clock",
    };
    Err(BridgeError::UnsupportedAction(name.to_string()))
}

/// The method of the JSON-RPC surface that stands for `op` on the bridge
/// of `platform`. A Java bridge calls methods; the others call functions.
pub open spec fn method_of(platform: Platform, op: Operation) -> Seq<char> {
    match op {
        Operation::Call => if platform == Platform::Java {
            "method.call"@
        } else {
            "fn.call"@
        },
        Operation::CtxGet => "ctx.get"@,
        Operation::CtxSet => "ctx.set"@,
        Operation::CtxClear => "ctx.clear"@,
        Operation::MockSet => "mock.set"@,
        Operation::MockClear => "mock.clear"@,
        Operation::HookCall => "hook.call"@,
        Operation::AssertCustom => "assert.custom"@,
        Operation::SetExecutionInfo => "ctx.setExecutionInfo"@,
        Operation::SyncStepOutputs => "ctx.syncStepOutputs"@,
        Operation::SyncClock => "clock.sync"@,
    }
}

/// The method of the JSON-RPC surface that stands for `op`.
pub fn rpc_method(platform: Platform, op: Operation) -> (m: &'static str)
    ensures
        m@ == method_of(platform, op),
{
    match op {
        Operation::Call => if matches!(platform, Platform::Java) {
            "method.call"
        } else {
            "fn.call"
        },
        Operation::CtxGet => "ctx.get",
        Operation::CtxSet => "ctx.set",
        Operation::CtxClear => "ctx.clear",
        Operation::MockSet => "mock.set",
        Operation::MockClear => "mock.clear",
        Operation::HookCall => "hook.call",
        Operation::AssertCustom => "assert.custom",
        Operation::SetExecutionInfo => "ctx.setExecutionInfo",
        Operation::SyncStepOutputs => "ctx.syncStepOutputs",
        Operation::SyncClock => "clock.sync",
    }
}

/// What a custom assertion came to.
#[derive(Debug, Clone)]
pub struct AssertionResult {
    pub success: bool,
    pub message: Option<String>,
    pub actual: Option<JsonValue>,
    pub expected: Option<JsonValue>,
}

impl AssertionResult {
    /// An assertion that holds.
    pub fn pass() -> (r: Self)
        ensures
            r.success,
            r.message is None,
            r.actual is None,
            r.expected is None,
    {
        AssertionResult { success: true, message: None, actual: None, expected: None }
    }

    /// An assertion that holds, with the values it held against each
    /// other.
    pub fn pass_with_values(actual: JsonValue, expected: JsonValue) -> (r: Self)
        ensures
            r.success,
            r.message is None,
            r.actual == Some(actual),
            r.expected == Some(expected),
    {
        AssertionResult { success: true, message: None, actual: Some(actual), expected: Some(expected) }
    }

    /// An assertion that does not hold.
    pub fn fail(message: &str) -> (r: Self)
        ensures
            !r.success,
            r.message matches Some(m) && m@ == message@,
            r.actual is None,
            r.expected is None,
    {
        AssertionResult {
            success: false,
            message: Some(message.to_string()),
            actual: None,
            expected: None,
        }
    }

    /// An assertion that does not hold, with the values it held against
    /// each other.
    pub fn fail_with_values(message: &str, actual: JsonValue, expected: JsonValue) -> (r: Self)
        ensures
            !r.success,
            r.message matches Some(m) && m@ == message@,
            r.actual == Some(actual),
            r.expected == Some(expected),
    {
        AssertionResult {
            success: false,
            message: Some(message.to_string()),
            actual: Some(actual),
            expected: Some(expected),
        }
    }

    /// An assertion that could not be made.
    pub fn error(message: &str) -> (r: Self)
        ensures
            !r.success,
            r.message matches Some(m) && m@ == message@,
            r.actual is None,
            r.expected is None,
    {
        AssertionResult::fail(message)
    }
}

/// What an action came to.
#[derive(Debug, Clone)]
pub struct ActionResult {
    pub outputs: NameMap<String>,
    pub response: Option<ApiResponse>,
}

/// What a call returned: the member `result` of the reply, or null.
pub fn call_result(reply: &JsonValue) -> (value: JsonValue)
    ensures
        value@ == match reply@.get("result"@) {
            Some(v) => v,
            None => JsonTree::Null,
        },
{
    match reply.get("result") {
        Some(v) => v.clone(),
        None => JsonValue::Null,
    }
}

/// What reading the shared context returned: the member `value` of the
/// reply, unless there is none or it is null.
pub fn ctx_value(reply: &JsonValue) -> (value: Option<JsonValue>)
    ensures
        match value {
            Some(v) => reply@.get("value"@) == Some(v@) && !(v@ is Null),
            None => reply@.get("value"@) is None || reply@.get("value"@) == Some(JsonTree::Null),
        },
{
    match reply.get("value") {
        Some(v) => if v.is_null() {
            None
        } else {
            Some(v.clone())
        },
        None => None,
    }
}

/// How many values clearing the shared context removed: the member
/// `cleared` of the reply, or 0 where it is no such number.
pub fn cleared_count(reply: &JsonValue) -> (n: u64)
    ensures
        n == match reply@.get("cleared"@) {
            Some(v) => match v.as_natural() {
                Some(count) => count,
                None => 0,
            },
            None => 0,
        },
{
    match reply.get("cleared") {
        Some(v) => match v.as_u64() {
            Some(count) => count,
            None => 0,
        },
        None => 0,
    }
}

/// What a custom assertion came to, from the reply of the bridge: it
/// succeeded only where the reply says so.
pub fn assertion_from(reply: &JsonValue) -> (r: AssertionResult)
    ensures
        r.success == (reply@.get("success"@) == Some(JsonTree::Bool(true))),
        crate::context::option_text(r.message) == match reply@.get("message"@) {
            Some(v) => v.as_text(),
            None => None,
        },
        match r.actual {
            Some(v) => reply@.get("actual"@) == Some(v@),
            None => reply@.get("actual"@) is None,
        },
        match r.expected {
            Some(v) => reply@.get("expected"@) == Some(v@),
            None => reply@.get("expected"@) is None,
        },
{
    let success = match reply.get("success") {
        Some(v) => match v.as_bool() {
            Some(b) => b,
            None => false,
        },
        None => false,
    };
    let message = match reply.get("message") {
        Some(v) => match v.as_str() {
            Some(t) => Some(t.clone()),
            None => None,
        },
        None => None,
    };
    let actual = match reply.get("actual") {
        Some(v) => Some(v.clone()),
        None => None,
    };
    let expected = match reply.get("expected") {
        Some(v) => Some(v.clone()),
        None => None,
    };
    AssertionResult { success, message, actual, expected }
}

/// What an entry of a list of functions says: the name, which must be a
/// string, and the description, empty where it is no string.
pub open spec fn listed_function(entry: JsonTree) -> Option<(Seq<char>, Seq<char>)> {
    match entry.get("name"@) {
        Some(JsonTree::Text(name)) => Some(
            (
                name,
                match entry.get("description"@) {
                    Some(JsonTree::Text(description)) => description,
                    _ => Seq::empty(),
                },
            ),
        ),
        _ => None,
    }
}

/// The functions that the first `n` entries list, entries without a name
/// left out.
pub open spec fn listed_functions(entries: Seq<JsonTree>, n: int) -> Seq<(Seq<char>, Seq<char>)>
    decreases n,
{
    if n <= 0 {
        Seq::empty()
    } else {
        match listed_function(entries[n - 1]) {
            Some(f) => listed_functions(entries, n - 1).push(f),
            None => listed_functions(entries, n - 1),
        }
    }
}

/// The functions, or assertions, that a registry lists under the member
/// `key` of its reply.
pub fn function_list(reply: &JsonValue, key: &str) -> (list: Vec<FunctionInfo>)
    ensures
        match reply@.get(key@) {
            Some(JsonTree::Array(entries)) => list.len() == listed_functions(
                entries,
                entries.len() as int,
            ).len() && forall|i: int|
                0 <= i < list.len() ==> ((#[trigger] list[i]).name@, list[i].description@)
                    == listed_functions(entries, entries.len() as int)[i],
            _ => list.len() == 0,
        },
{
    let mut list: Vec<FunctionInfo> = Vec::new();
    let entries = match reply.get(key) {
        Some(v) => match v.as_array() {
            Some(items) => items,
            None => {
                return list;
            },
        },
        None => {
            return list;
        },
    };
    let ghost all = reply@.get(key@)->Some_0->Array_0;
    let mut i: usize = 0;
    while i < entries.len()
        invariant
            i <= entries.len(),
            entries.len() == all.len(),
            forall|j: int| 0 <= j < entries.len() ==> (#[trigger] entries[j])@ == all[j],
            list.len() == listed_functions(all, i as int).len(),
            forall|j: int|
                0 <= j < list.len() ==> ((#[trigger] list[j]).name@, list[j].description@)
                    == listed_functions(all, i as int)[j],
        decreases entries.len() - i,
    {
        let entry = &entries[i];
        assert(entry@ == all[i as int]);
        match entry.get("name") {
            Some(name_value) => match name_value.as_str() {
                Some(name) => {
                    let description = match entry.get("description") {
                        Some(d) => match d.as_str() {
                            Some(text) => text.clone(),
                            None => String::new(),
                        },
                        None => String::new(),
                    };
                    list.push(FunctionInfo { name: name.clone(), description });
                },
                None => {},
            },
            None => {},
        }
        i = i + 1;
    }
    list
}

} // verus!
