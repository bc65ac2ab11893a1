use testing_actions::bridge::{
    admit_operation, assertion_from, call_result, capabilities, cleared_count, ctx_value,
    function_list, rpc_method, supports, AssertionResult, BridgeConfig, Operation,
};
use testing_actions::error::BridgeError;
use testing_actions::job::NumberValue;
use testing_actions::json::{same_json, JsonValue};
use testing_actions::namemap::NameMap;
use testing_actions::platform::{Platform, PlaywrightConfig};
use testing_actions::registry::{matches_pattern, Context, RustRegistry};
use testing_actions::rpc::{
    new_request, outcome, FunctionInfo, PendingCalls, RequestIds, RpcResponse, ASSERTION_ERROR,
    FUNCTION_ERROR, HOOK_ERROR, INVALID_PARAMS, METHOD_NOT_FOUND, PARSE_ERROR,
};

fn text(s: &str) -> JsonValue {
    JsonValue::Text(s.to_string())
}

fn number(n: u64) -> JsonValue {
    JsonValue::Number(NumberValue::UInt(n))
}

fn object(list: Vec<(&str, JsonValue)>) -> JsonValue {
    JsonValue::Object(list.into_iter().map(|(k, v)| (k.to_string(), v)).collect())
}

#[test]
fn test_context_get_set() {
    let mut ctx = Context::new();
    ctx.set("key1", text("value1"));
    ctx.set("key2", number(42));

    assert_eq!(ctx.get("key1").unwrap().as_str(), Some(&"value1".to_string()));
    assert_eq!(ctx.get("key2").unwrap().as_u64(), Some(42));
    assert!(ctx.get("key3").is_none());
}

#[test]
fn test_context_remove() {
    let mut ctx = Context::new();
    ctx.set("key", text("value"));

    let removed = ctx.remove("key");
    assert_eq!(removed.unwrap().as_str(), Some(&"value".to_string()));
    assert!(ctx.get("key").is_none());
    assert!(ctx.remove("key").is_none());
}

#[test]
fn test_context_clear_all() {
    let mut ctx = Context::new();
    ctx.set("key1", JsonValue::Null);
    ctx.set("key2", JsonValue::Null);
    ctx.set("key3", JsonValue::Null);

    let count = ctx.clear("*");
    assert_eq!(count, 3);
    assert!(ctx.data().is_empty());
}

#[test]
fn test_context_clear_prefix() {
    let mut ctx = Context::new();
    ctx.set("user_1", JsonValue::Null);
    ctx.set("user_2", JsonValue::Null);
    ctx.set("session_1", JsonValue::Null);

    let count = ctx.clear("user_*");
    assert_eq!(count, 2);
    assert_eq!(ctx.data().len(), 1);
    assert!(ctx.get("session_1").is_some());
}

#[test]
fn test_context_clear_suffix() {
    let mut ctx = Context::new();
    ctx.set("test_cache", JsonValue::Null);
    ctx.set("user_cache", JsonValue::Null);
    ctx.set("test_data", JsonValue::Null);

    let count = ctx.clear("*_cache");
    assert_eq!(count, 2);
    assert_eq!(ctx.data().len(), 1);
    assert!(ctx.get("test_data").is_some());
}

#[test]
fn test_step_outputs() {
    let mut ctx = Context::new();
    let mut outputs = NameMap::new();
    outputs.insert("result".to_string(), "42".to_string());
    outputs.insert("status".to_string(), "ok".to_string());
    ctx.set_step_outputs("step1", outputs);

    assert_eq!(ctx.get_step_output("step1", "result"), Some(&"42".to_string()));
    assert_eq!(ctx.get_step_output("step1", "status"), Some(&"ok".to_string()));
    assert_eq!(ctx.get_step_output("step1", "missing"), None);
    assert_eq!(ctx.get_step_output("step2", "result"), None);
    assert_eq!(ctx.get_step_outputs("step1").unwrap().len(), 2);
}

#[test]
fn test_execution_info() {
    let mut ctx = Context::new();
    ctx.set_execution_info("run-123", "build", "compile");

    assert_eq!(ctx.run_id(), "run-123");
    assert_eq!(ctx.job_name(), "build");
    assert_eq!(ctx.step_name(), "compile");
}

#[test]
fn test_assertion_result_pass() {
    let result = AssertionResult::pass();
    assert!(result.success);
    assert!(result.message.is_none());
}

#[test]
fn test_assertion_result_fail() {
    let result = AssertionResult::fail("expected true");
    assert!(!result.success);
    assert_eq!(result.message, Some("expected true".to_string()));
}

#[test]
fn test_assertion_result_with_values() {
    let result = AssertionResult::fail_with_values("values differ", number(1), number(2));
    assert!(!result.success);
    assert_eq!(result.actual.unwrap().as_u64(), Some(1));
    assert_eq!(result.expected.unwrap().as_u64(), Some(2));
    let held = AssertionResult::pass_with_values(number(1), number(1));
    assert!(held.success && held.message.is_none());
    let broken = AssertionResult::error("cannot run");
    assert!(!broken.success);
    assert_eq!(broken.message, Some("cannot run".to_string()));
}

struct TestRegistry;

impl RustRegistry for TestRegistry {
    fn call(&self, name: &str, _args: JsonValue, _ctx: &mut Context) -> Result<JsonValue, String> {
        match name {
            "ping" => Ok(JsonValue::Text("pong".to_string())),
            _ => Err(format!("Unknown: {}", name)),
        }
    }

    fn list_functions(&self) -> Vec<FunctionInfo> {
        vec![FunctionInfo::new("ping", "Returns pong")]
    }
}

#[test]
fn test_registry_call() {
    let reg = TestRegistry;
    let mut ctx = Context::new();

    let result = reg.call("ping", JsonValue::Null, &mut ctx);
    assert_eq!(result.unwrap().as_str(), Some(&"pong".to_string()));

    let result = reg.call("unknown", JsonValue::Null, &mut ctx);
    assert!(result.is_err());
}

#[test]
fn test_registry_list_functions() {
    let reg = TestRegistry;
    let funcs = reg.list_functions();
    assert_eq!(funcs.len(), 1);
    assert_eq!(funcs[0].name, "ping");
}

#[test]
fn test_registry_default_assertion() {
    let reg = TestRegistry;
    let ctx = Context::new();

    let result = reg.call_assertion("any", JsonValue::Null, &ctx);
    assert!(!result.success);
    assert!(result.message.unwrap().contains("Unknown assertion"));
}

#[test]
fn test_registry_default_hook() {
    let reg = TestRegistry;
    let mut ctx = Context::new();

    let result = reg.call_hook("before_all", &mut ctx);
    assert!(result.is_ok());
    assert!(reg.list_assertions().is_empty());
}

#[test]
fn test_rpc_response_success() {
    let response = RpcResponse::success(1, text("done"));
    assert_eq!(response.jsonrpc, "2.0");
    assert_eq!(response.id, 1);
    assert_eq!(response.result.unwrap().as_str(), Some(&"done".to_string()));
    assert!(response.error.is_none());
}

#[test]
fn test_rpc_response_error() {
    let response = RpcResponse::error(1, METHOD_NOT_FOUND, "Method not found");
    assert_eq!(response.id, 1);
    assert!(response.result.is_none());
    let error = response.error.unwrap();
    assert_eq!(error.code, -32601);
    assert_eq!(error.message, "Method not found");
    assert_eq!(
        [PARSE_ERROR, INVALID_PARAMS, FUNCTION_ERROR, ASSERTION_ERROR, HOOK_ERROR],
        [-32700, -32602, -32000, -32001, -32002]
    );
}

#[test]
fn patterns() {
    assert!(matches_pattern("anything", "*"));
    assert!(matches_pattern("", "*"));
    assert!(matches_pattern("user_1", "user_*"));
    assert!(matches_pattern("user_", "user_*"));
    assert!(!matches_pattern("user", "user_*"));
    assert!(!matches_pattern("User_1", "user_*"));
    assert!(matches_pattern("test_cache", "*_cache"));
    assert!(!matches_pattern("cache_test", "*_cache"));
    assert!(matches_pattern("user_1_cache", "user_*_cache"));
    assert!(matches_pattern("user__cache", "user_*_cache"));
    assert!(!matches_pattern("user_1_data", "user_*_cache"));
    assert!(matches_pattern("exact", "exact"));
    assert!(!matches_pattern("exact", "exac"));
    assert!(!matches_pattern("exac", "exact"));
    assert!(matches_pattern("", ""));
    // only the last star of a pattern that ends with one is a star
    assert!(matches_pattern("a*b-anything", "a*b*"));
    assert!(!matches_pattern("axb-anything", "a*b*"));
    // the two ends of a key may lie over each other
    assert!(matches_pattern("aba", "ab*ba"));
    assert!(matches_pattern("**", "**"));
    assert!(matches_pattern("x", "**") == false);

    let mut ctx = Context::new();
    for key in ["a_1", "b_1", "a_2", "c"] {
        ctx.set(key, text(key));
    }
    ctx.set_execution_info("r", "j", "s");
    assert_eq!(ctx.clear("nothing"), 0);
    assert_eq!(ctx.clear("a_*"), 2);
    assert_eq!(ctx.data().len(), 2);
    assert_eq!(ctx.get("b_1").unwrap().as_str(), Some(&"b_1".to_string()));
    assert_eq!(ctx.clear("c"), 1);
    assert_eq!(ctx.run_id(), "r");
    assert!(!ctx.is_clock_mocked());
    assert_eq!(ctx.now(5), 5);
    ctx.set_clock(None, None, false);
    assert!(!ctx.is_clock_mocked());
    assert_eq!(ctx.now(5), 5);
    ctx.set_clock(Some(1000), Some("1970-01-01T00:00:01+00:00".to_string()), true);
    assert!(ctx.is_clock_mocked());
    assert_eq!(ctx.now(5), 1000);
    assert!(ctx.clock().unwrap().frozen);
}

#[test]
fn what_each_bridge_can_do() {
    for platform in [Platform::Playwright, Platform::Web] {
        assert!(supports(platform, Operation::Call));
        for op in [
            Operation::CtxGet,
            Operation::CtxSet,
            Operation::CtxClear,
            Operation::MockSet,
            Operation::MockClear,
            Operation::HookCall,
            Operation::AssertCustom,
            Operation::SetExecutionInfo,
            Operation::SyncStepOutputs,
            Operation::SyncClock,
        ] {
            assert!(!supports(platform, op));
        }
        let c = capabilities(platform);
        assert!(!c.context && !c.hooks && !c.mocking && !c.clock);
    }
    for platform in [Platform::Nodejs, Platform::Rust, Platform::Python, Platform::Java, Platform::Go] {
        for op in [
            Operation::Call,
            Operation::CtxGet,
            Operation::CtxSet,
            Operation::CtxClear,
            Operation::HookCall,
            Operation::AssertCustom,
            Operation::SetExecutionInfo,
            Operation::SyncStepOutputs,
        ] {
            assert!(supports(platform, op));
            assert!(admit_operation(platform, op).is_ok());
        }
        assert_eq!(supports(platform, Operation::MockSet), platform == Platform::Nodejs);
        assert_eq!(supports(platform, Operation::MockClear), platform == Platform::Nodejs);
    }
    assert!(capabilities(Platform::Nodejs).clock);
    assert!(capabilities(Platform::Python).clock);
    assert!(capabilities(Platform::Java).clock);
    assert!(!capabilities(Platform::Go).clock);
    assert!(!capabilities(Platform::Rust).clock);

    match admit_operation(Platform::Playwright, Operation::CtxGet) {
        Err(BridgeError::UnsupportedAction(name)) => assert_eq!(name, "ctx_get"),
        other => panic!("unexpected: {:?}", other),
    }
    match admit_operation(Platform::Python, Operation::MockSet) {
        Err(BridgeError::UnsupportedAction(name)) => assert_eq!(name, "mock_set"),
        other => panic!("unexpected: {:?}", other),
    }
    assert_eq!(
        BridgeError::UnsupportedAction("mock_set".to_string()).message(),
        "Unsupported action: mock_set"
    );
    assert_eq!(
        BridgeError::HttpError { status: 404, message: "gone".to_string() }.message(),
        "HTTP error: 404 - gone"
    );
    assert_eq!(BridgeError::Disconnected.message(), "Server disconnected");
    assert_eq!(BridgeError::Timeout.message(), "Request timed out");

    assert_eq!(rpc_method(Platform::Java, Operation::Call), "method.call");
    assert_eq!(rpc_method(Platform::Go, Operation::Call), "fn.call");
    assert_eq!(rpc_method(Platform::Nodejs, Operation::CtxGet), "ctx.get");
    assert_eq!(rpc_method(Platform::Nodejs, Operation::CtxSet), "ctx.set");
    assert_eq!(rpc_method(Platform::Nodejs, Operation::CtxClear), "ctx.clear");
    assert_eq!(rpc_method(Platform::Nodejs, Operation::MockSet), "mock.set");
    assert_eq!(rpc_method(Platform::Nodejs, Operation::MockClear), "mock.clear");
    assert_eq!(rpc_method(Platform::Rust, Operation::HookCall), "hook.call");
    assert_eq!(rpc_method(Platform::Rust, Operation::AssertCustom), "assert.custom");
    assert_eq!(rpc_method(Platform::Rust, Operation::SetExecutionInfo), "ctx.setExecutionInfo");
    assert_eq!(rpc_method(Platform::Rust, Operation::SyncStepOutputs), "ctx.syncStepOutputs");
    assert_eq!(rpc_method(Platform::Python, Operation::SyncClock), "clock.sync");

    let config = BridgeConfig::Playwright(PlaywrightConfig::default());
    assert_eq!(config.platform(), Platform::Playwright);
}

#[test]
fn what_replies_hold() {
    let reply = object(vec![("result", number(3)), ("result", number(4))]);
    assert_eq!(call_result(&reply).as_u64(), Some(4));
    assert!(call_result(&object(vec![])).is_null());
    assert!(call_result(&text("no object")).is_null());

    assert_eq!(ctx_value(&object(vec![("value", text("v"))])).unwrap().as_str(), Some(&"v".to_string()));
    assert!(ctx_value(&object(vec![("value", JsonValue::Null)])).is_none());
    assert!(ctx_value(&object(vec![])).is_none());

    assert_eq!(cleared_count(&object(vec![("cleared", number(5))])), 5);
    assert_eq!(
        cleared_count(&object(vec![("cleared", JsonValue::Number(NumberValue::Int(-5)))])),
        0
    );
    assert_eq!(cleared_count(&object(vec![("cleared", text("5"))])), 0);
    assert_eq!(cleared_count(&JsonValue::Null), 0);

    let result = assertion_from(&object(vec![
        ("success", JsonValue::Bool(true)),
        ("message", text("fine")),
        ("actual", number(1)),
    ]));
    assert!(result.success);
    assert_eq!(result.message, Some("fine".to_string()));
    assert_eq!(result.actual.unwrap().as_u64(), Some(1));
    assert!(result.expected.is_none());
    assert!(!assertion_from(&object(vec![("success", text("true"))])).success);
    assert!(!assertion_from(&object(vec![])).success);
    assert!(assertion_from(&object(vec![("message", number(1))])).message.is_none());

    let list = function_list(
        &object(vec![(
            "functions",
            JsonValue::Array(vec![
                object(vec![("name", text("ping")), ("description", text("Returns pong"))]),
                object(vec![("description", text("no name"))]),
                object(vec![("name", number(1))]),
                object(vec![("name", text("bare"))]),
                text("not an object"),
                object(vec![("name", text("odd")), ("description", number(1))]),
            ]),
        )]),
        "functions",
    );
    assert_eq!(list.len(), 3);
    assert_eq!(list[0].name, "ping");
    assert_eq!(list[0].description, "Returns pong");
    assert_eq!(list[1].name, "bare");
    assert_eq!(list[1].description, "");
    assert_eq!(list[2].name, "odd");
    assert_eq!(list[2].description, "");
    assert!(function_list(&object(vec![("functions", text("x"))]), "functions").is_empty());
    assert!(function_list(&object(vec![]), "assertions").is_empty());
}

#[test]
fn requests_and_the_calls_that_wait_for_them() {
    let mut ids = RequestIds::new();
    let first = new_request(&mut ids, "fn.call", text("a"));
    let second = new_request(&mut ids, "ctx.get", JsonValue::Null);
    assert_eq!(first.jsonrpc, "2.0");
    assert_eq!(first.id, 1);
    assert_eq!(first.method, "fn.call");
    assert_eq!(second.id, 2);
    assert_eq!(ids.take(), 3);

    let mut waiting: PendingCalls<&str> = PendingCalls::new();
    waiting.register(first.id, "first");
    waiting.register(second.id, "second");
    assert_eq!(waiting.len(), 2);
    // responses may come in any order; one that nobody waits for is
    // dropped
    assert_eq!(waiting.resolve(2), Some("second"));
    assert_eq!(waiting.resolve(2), None);
    assert_eq!(waiting.resolve(99), None);
    assert_eq!(waiting.resolve(1), Some("first"));
    assert_eq!(waiting.len(), 0);

    assert!(same_json(&outcome(RpcResponse::success(1, number(5))).unwrap(), &number(5)));
    let empty = RpcResponse { jsonrpc: "2.0".to_string(), id: 1, result: None, error: None };
    assert!(outcome(empty).unwrap().is_null());
    match outcome(RpcResponse::error(1, FUNCTION_ERROR, "user not found")) {
        Err(BridgeError::ServerError(message)) => {
            assert_eq!(message, "[-32000] user not found")
        }
        other => panic!("unexpected: {:?}", other),
    }
    let both = RpcResponse {
        jsonrpc: "2.0".to_string(),
        id: 1,
        result: Some(number(1)),
        error: RpcResponse::error(1, 7, "wins").error,
    };
    assert!(matches!(outcome(both), Err(BridgeError::ServerError(m)) if m == "[7] wins"));
}
