use testing_actions::action::ParsedAction;
use testing_actions::actions::playwright::BrowserCall;
use testing_actions::actions::{
    bash_result, call_outcome, ctx_clear_outcome, ctx_equals_outcome, ctx_get_outcome,
    custom_outcome, execute_assert, execute_assert_action, execute_bash_action, execute_call,
    execute_ctx_action, execute_custom_assertion, execute_hook_action, execute_mock_action,
    execute_node_action, execute_platform_agnostic_action, execute_step, execute_wait,
    arguments_of, execute_web_request, json_or_string, returns_outcome, script_arguments,
    split_words, throws_outcome, value_or_null, web_request_of, HttpPlan,
    web_outcome, Plan,
};
use testing_actions::bridge::AssertionResult;
use testing_actions::error::ExecutorError;
use testing_actions::job::NumberValue;
use testing_actions::json::JsonValue;
use testing_actions::namemap::NameMap;
use testing_actions::platform::Platform;
use testing_actions::result::StepResult;
use testing_actions::web::WebResponse;

fn params(list: &[(&str, &str)]) -> NameMap<String> {
    let mut map = NameMap::new();
    for (key, value) in list {
        map.insert(key.to_string(), value.to_string());
    }
    map
}

fn json(list: Vec<(&str, JsonValue)>) -> NameMap<JsonValue> {
    let mut map = NameMap::new();
    for (key, value) in list {
        map.insert(key.to_string(), value);
    }
    map
}

fn text(s: &str) -> JsonValue {
    JsonValue::Text(s.to_string())
}

fn number(n: u64) -> JsonValue {
    JsonValue::Number(NumberValue::UInt(n))
}

fn missing(r: Result<Plan, ExecutorError>) -> String {
    match r {
        Err(ExecutorError::MissingParameter(message)) => message,
        other => panic!("unexpected: {:?}", other),
    }
}

fn unknown(r: Result<Plan, ExecutorError>) -> String {
    match r {
        Err(ExecutorError::UnknownAction(message)) => message,
        other => panic!("unexpected: {:?}", other),
    }
}

fn mismatch(r: Result<Plan, ExecutorError>) -> String {
    match r {
        Err(ExecutorError::PlatformMismatch(message)) => message,
        other => panic!("unexpected: {:?}", other),
    }
}

#[test]
fn waits() {
    assert!(matches!(execute_wait("ms", &params(&[("ms", "250")])), Ok(Plan::Sleep(250))));
    assert!(matches!(execute_wait("timeout", &params(&[("timeout", "5")])), Ok(Plan::Sleep(5))));
    assert!(matches!(execute_wait("delay", &params(&[("duration", "+7")])), Ok(Plan::Sleep(7))));
    // `ms` counts before `timeout`, and `timeout` before `duration`
    assert!(matches!(
        execute_wait("ms", &params(&[("duration", "3"), ("timeout", "2"), ("ms", "1")])),
        Ok(Plan::Sleep(1))
    ));
    assert!(matches!(
        execute_wait("ms", &params(&[("duration", "3"), ("timeout", "2")])),
        Ok(Plan::Sleep(2))
    ));
    assert_eq!(missing(execute_wait("ms", &params(&[]))), "ms or duration");
    for bad in ["", "1.5", "-1", "ten", " 5", "18446744073709551616"] {
        match execute_wait("ms", &params(&[("ms", bad)])) {
            Err(ExecutorError::InvalidParameter(message)) => {
                assert_eq!(message, "ms/duration must be a number")
            }
            other => panic!("unexpected: {:?}", other),
        }
    }
    assert!(matches!(
        execute_wait("ms", &params(&[("ms", "18446744073709551615")])),
        Ok(Plan::Sleep(u64::MAX))
    ));
    assert_eq!(unknown(execute_wait("selector", &params(&[("ms", "1")]))), "wait/selector");
}

#[test]
fn actions_of_the_engine_itself() {
    let run = |uses: &str, list: &[(&str, &str)]| {
        execute_platform_agnostic_action(&ParsedAction::parse(uses).unwrap(), &params(list))
    };
    assert!(matches!(run("wait/ms", &[("ms", "1")]), Ok(Plan::Sleep(1))));
    assert!(matches!(run("clock/forward", &[]), Ok(Plan::Clock(action)) if action == "forward"));
    match run("fail/now", &[("message", "on purpose")]) {
        Err(ExecutorError::StepFailed(message)) => assert_eq!(message, "on purpose"),
        other => panic!("unexpected: {:?}", other),
    }
    match run("fail/now", &[]) {
        Err(ExecutorError::StepFailed(message)) => assert_eq!(message, "Intentional failure"),
        other => panic!("unexpected: {:?}", other),
    }
    match run("assert/visible", &[]) {
        Err(ExecutorError::ConfigError(message)) => {
            assert_eq!(message, "Assert actions require a platform context")
        }
        other => panic!("unexpected: {:?}", other),
    }
    assert_eq!(
        mismatch(run("web/get", &[])),
        "Action category Web is not platform-agnostic"
    );
    assert!(matches!(run("bash/exec", &[("command", "true")]), Ok(Plan::Bash(_))));
}

#[test]
fn shell_commands() {
    match execute_bash_action(
        "exec",
        &params(&[("command", "echo hello"), ("script", "./ignored.sh"), ("working_dir", "/tmp")]),
    )
    .unwrap()
    {
        Plan::Bash(command) => {
            assert_eq!(command.program, "sh");
            assert_eq!(command.args, vec!["-c", "echo hello"]);
            assert_eq!(command.more_args, None);
            assert_eq!(command.working_dir, Some("/tmp".to_string()));
        }
        other => panic!("unexpected: {:?}", other),
    }
    match execute_bash_action("exec", &params(&[("script", "./setup.sh"), ("args", "--env test")]))
        .unwrap()
    {
        Plan::Bash(command) => {
            assert_eq!(command.program, "bash");
            assert_eq!(command.args, vec!["./setup.sh"]);
            assert_eq!(command.more_args, Some("--env test".to_string()));
            assert_eq!(command.working_dir, None);
        }
        other => panic!("unexpected: {:?}", other),
    }
    match execute_bash_action("exec", &params(&[])) {
        Err(ExecutorError::ConfigError(message)) => assert_eq!(
            message,
            "bash/exec requires either 'command' or 'script' parameter"
        ),
        other => panic!("unexpected: {:?}", other),
    }
    assert_eq!(
        unknown(execute_bash_action("script", &params(&[("command", "true")]))),
        "Unknown bash action: script"
    );

    assert_eq!(split_words("  --env   test\t-v\n"), vec!["--env", "test", "-v"]);
    assert!(split_words("   ").is_empty());
    assert!(split_words("").is_empty());
    assert_eq!(split_words("one"), vec!["one"]);
    assert_eq!(arguments_of("--env test", None), vec!["--env", "test"]);
    assert_eq!(
        arguments_of("[\"a b\", \"c\"]", Some(vec!["a b".to_string(), "c".to_string()])),
        vec!["a b", "c"]
    );
    // a text that is JSON for a list of strings is that list
    assert_eq!(script_arguments("[\"a b\", \"c\"]"), vec!["a b", "c"]);
    assert_eq!(script_arguments(" [ \"--env\" ] "), vec!["--env"]);
    assert!(script_arguments("[]").is_empty());
    // any other text is taken by its words
    assert_eq!(script_arguments("--env test"), vec!["--env", "test"]);
    assert_eq!(script_arguments("[1, 2]"), vec!["[1,", "2]"]);
    assert_eq!(script_arguments("\"one two\""), vec!["\"one", "two\""]);
    assert_eq!(script_arguments("[\"a\""), vec!["[\"a\""]);
    assert!(script_arguments("").is_empty());
}

#[test]
fn what_a_shell_command_comes_to() {
    let done = bash_result(Some(0), "hello\n", "  warn \n").unwrap();
    assert!(done.success);
    assert_eq!(done.outputs.get("stdout"), Some(&"hello".to_string()));
    assert_eq!(done.outputs.get("stderr"), Some(&"warn".to_string()));
    assert_eq!(done.outputs.get("exit_code"), Some(&"0".to_string()));
    assert_eq!(done.outputs.len(), 3);

    match bash_result(Some(1), "", "") {
        Err(ExecutorError::StepFailed(message)) => {
            assert_eq!(message, "Command exited with code 1")
        }
        other => panic!("unexpected: {:?}", other),
    }
    match bash_result(None, "out", "") {
        Err(ExecutorError::StepFailed(message)) => {
            assert_eq!(message, "Command exited with code -1")
        }
        other => panic!("unexpected: {:?}", other),
    }
    match bash_result(Some(2), "", " no such file \n") {
        Err(ExecutorError::StepFailed(message)) => assert_eq!(message, "no such file"),
        other => panic!("unexpected: {:?}", other),
    }
    // what was written is only white space: it is the error all the same
    match bash_result(Some(2), "", "\n") {
        Err(ExecutorError::StepFailed(message)) => assert_eq!(message, ""),
        other => panic!("unexpected: {:?}", other),
    }
}

#[test]
fn calls_of_functions() {
    let args = JsonValue::Array(vec![number(1), text("two")]);
    match execute_call(
        "go/",
        "function",
        "call",
        &params(&[("function", "createUser")]),
        &json(vec![("args", args.clone())]),
    )
    .unwrap()
    {
        Plan::Call { function, args: sent } => {
            assert_eq!(function, "createUser");
            assert!(testing_actions::json::same_json(&sent, &args));
        }
        other => panic!("unexpected: {:?}", other),
    }
    match execute_call("java/", "method", "call", &params(&[("method", "run")]), &json(vec![]))
        .unwrap()
    {
        Plan::Call { function, args } => {
            assert_eq!(function, "run");
            assert!(args.is_null());
        }
        other => panic!("unexpected: {:?}", other),
    }
    assert_eq!(
        missing(execute_call("java/", "method", "call", &params(&[("function", "x")]), &json(vec![]))),
        "method"
    );
    assert_eq!(
        unknown(execute_call("rs/", "function", "invoke", &params(&[]), &json(vec![]))),
        "rs/invoke"
    );

    match execute_node_action(
        "chain",
        &params(&[]),
        &json(vec![
            (
                "functions",
                JsonValue::Array(vec![text("parse"), number(3), text("validate"), JsonValue::Null]),
            ),
            ("initial", text("input")),
        ]),
    )
    .unwrap()
    {
        Plan::Chain { functions, initial } => {
            assert_eq!(functions, vec!["parse", "validate"]);
            assert_eq!(initial.as_str(), Some(&"input".to_string()));
        }
        other => panic!("unexpected: {:?}", other),
    }
    match execute_node_action("chain", &params(&[]), &json(vec![("functions", text("nope"))]))
        .unwrap()
    {
        Plan::Chain { functions, initial } => {
            assert!(functions.is_empty());
            assert!(initial.is_null());
        }
        other => panic!("unexpected: {:?}", other),
    }
    assert_eq!(
        missing(execute_node_action("call", &params(&[]), &json(vec![]))),
        "function"
    );
    assert_eq!(
        unknown(execute_node_action("run", &params(&[]), &json(vec![]))),
        "node/run"
    );
}

#[test]
fn the_shared_context_mocks_and_hooks() {
    assert!(matches!(
        execute_ctx_action("get", &params(&[("key", "user")])),
        Ok(Plan::CtxGet { key }) if key == "user"
    ));
    assert_eq!(missing(execute_ctx_action("get", &params(&[]))), "key");
    assert!(matches!(
        execute_ctx_action("set", &params(&[("key", "user"), ("value", "{\"id\":1}")])),
        Ok(Plan::CtxSet { key, value: Some(value) }) if key == "user" && value == "{\"id\":1}"
    ));
    assert!(matches!(
        execute_ctx_action("set", &params(&[("key", "user")])),
        Ok(Plan::CtxSet { value: None, .. })
    ));
    assert_eq!(missing(execute_ctx_action("set", &params(&[("value", "1")]))), "key");
    assert!(matches!(
        execute_ctx_action("clear", &params(&[])),
        Ok(Plan::CtxClear { pattern }) if pattern == "*"
    ));
    assert!(matches!(
        execute_ctx_action("clear", &params(&[("pattern", "user_*")])),
        Ok(Plan::CtxClear { pattern }) if pattern == "user_*"
    ));
    assert_eq!(unknown(execute_ctx_action("drop", &params(&[]))), "ctx/drop");

    assert!(matches!(
        execute_mock_action("set", &params(&[("target", "db.find"), ("value", "[]")])),
        Ok(Plan::MockSet { target, value: Some(_) }) if target == "db.find"
    ));
    assert_eq!(missing(execute_mock_action("set", &params(&[]))), "target");
    assert!(matches!(execute_mock_action("clear", &params(&[])), Ok(Plan::MockClear)));
    assert_eq!(unknown(execute_mock_action("reset", &params(&[]))), "mock/reset");

    assert!(matches!(
        execute_hook_action("call", &params(&[("hook", "seed")])),
        Ok(Plan::HookCall { hook }) if hook == "seed"
    ));
    assert_eq!(missing(execute_hook_action("call", &params(&[]))), "hook");
    assert!(matches!(
        execute_hook_action("before", &params(&[])),
        Ok(Plan::HookCall { hook }) if hook == "before"
    ));
    assert!(matches!(
        execute_hook_action("after", &params(&[("hook", "teardown")])),
        Ok(Plan::HookCall { hook }) if hook == "teardown"
    ));
    assert_eq!(unknown(execute_hook_action("around", &params(&[]))), "hook/around");
}

#[test]
fn assertions_on_a_registry() {
    match execute_assert_action(
        "returns",
        &json(vec![("function", text("add")), ("expected", number(3))]),
    )
    .unwrap()
    {
        Plan::AssertReturns { function, args, expected } => {
            assert_eq!(function, "add");
            assert!(args.is_null());
            assert_eq!(expected.as_u64(), Some(3));
        }
        other => panic!("unexpected: {:?}", other),
    }
    assert_eq!(
        missing(execute_assert_action("returns", &json(vec![("expected", number(3))]))),
        "function"
    );
    assert_eq!(
        missing(execute_assert_action("returns", &json(vec![("function", number(3))]))),
        "function"
    );
    assert_eq!(
        missing(execute_assert_action("returns", &json(vec![("function", text("add"))]))),
        "expected"
    );
    assert!(matches!(
        execute_assert_action("throws", &json(vec![("function", text("explode"))])),
        Ok(Plan::AssertThrows { function, .. }) if function == "explode"
    ));
    assert_eq!(missing(execute_assert_action("throws", &json(vec![]))), "function");
    assert!(matches!(
        execute_assert_action("ctx_equals", &json(vec![("key", text("user")), ("value", JsonValue::Null)])),
        Ok(Plan::AssertCtxEquals { key, expected }) if key == "user" && expected.is_null()
    ));
    assert_eq!(
        missing(execute_assert_action("ctx_equals", &json(vec![("value", number(1))]))),
        "key"
    );
    assert_eq!(
        missing(execute_assert_action("ctx_equals", &json(vec![("key", text("user"))]))),
        "value"
    );

    let object = JsonValue::Object(vec![
        ("id".to_string(), number(7)),
        ("name".to_string(), text("Ann")),
    ]);
    match execute_assert_action("userExists", &json(vec![("params", object)])).unwrap() {
        Plan::AssertCustom { name, params } => {
            assert_eq!(name, "userExists");
            assert_eq!(params.len(), 2);
            assert_eq!(params[0].0, "id");
            assert_eq!(params[1].1.as_str(), Some(&"Ann".to_string()));
        }
        other => panic!("unexpected: {:?}", other),
    }
    assert!(matches!(
        execute_custom_assertion("anything", &json(vec![("params", text("no object"))])),
        Ok(Plan::AssertCustom { params, .. }) if params.is_empty()
    ));
    assert!(matches!(
        execute_custom_assertion("returns", &json(vec![])),
        Ok(Plan::AssertCustom { name, .. }) if name == "returns"
    ));
}

#[test]
fn requests() {
    match execute_web_request(
        "get",
        &params(&[
            ("path", "/users"),
            ("url", "/ignored"),
            ("headers", "{\"X-A\":\"1\"}"),
            ("body", "ignored"),
            ("query", "{\"page\":\"2\"}"),
        ]),
    )
    .unwrap()
    {
        Plan::Http(plan) => {
            assert_eq!(plan.method, "GET");
            assert_eq!(plan.path, "/users");
            assert_eq!(plan.headers, Some("{\"X-A\":\"1\"}".to_string()));
            assert_eq!(plan.body, None);
            assert_eq!(plan.query, Some("{\"page\":\"2\"}".to_string()));
        }
        other => panic!("unexpected: {:?}", other),
    }
    for (action, method) in [("post", "POST"), ("put", "PUT"), ("patch", "PATCH")] {
        match execute_web_request(
            action,
            &params(&[("url", "/users"), ("body", "{}"), ("query", "{}")]),
        )
        .unwrap()
        {
            Plan::Http(plan) => {
                assert_eq!(plan.method, method);
                assert_eq!(plan.path, "/users");
                assert_eq!(plan.body, Some("{}".to_string()));
                assert_eq!(plan.query, None);
            }
            other => panic!("unexpected: {:?}", other),
        }
    }
    match execute_web_request("delete", &params(&[("path", "/users/1"), ("body", "{}")])).unwrap()
    {
        Plan::Http(plan) => {
            assert_eq!(plan.method, "DELETE");
            assert_eq!(plan.body, None);
            assert_eq!(plan.query, None);
        }
        other => panic!("unexpected: {:?}", other),
    }
    match execute_web_request(
        "request",
        &params(&[("path", "/x"), ("method", "options"), ("body", "b"), ("query", "q")]),
    )
    .unwrap()
    {
        Plan::Http(plan) => {
            assert_eq!(plan.method, "options");
            assert_eq!(plan.body, Some("b".to_string()));
            assert_eq!(plan.query, Some("q".to_string()));
        }
        other => panic!("unexpected: {:?}", other),
    }
    assert_eq!(missing(execute_web_request("get", &params(&[]))), "path or url");
    assert_eq!(missing(execute_web_request("nonsense", &params(&[]))), "path or url");
    assert_eq!(
        missing(execute_web_request("request", &params(&[("path", "/")]))),
        "method"
    );
    assert_eq!(
        unknown(execute_web_request("head", &params(&[("path", "/")]))),
        "web/head"
    );
}

#[test]
fn assertions_on_a_status() {
    assert!(matches!(
        execute_assert("status", &params(&[("expected", "200"), ("actual", "200")])),
        Ok(Plan::Passed)
    ));
    match execute_assert("status", &params(&[("expected", "200"), ("actual", "404")])) {
        Err(ExecutorError::AssertionFailed(message)) => {
            assert_eq!(message, "Expected status 200, got 404")
        }
        other => panic!("unexpected: {:?}", other),
    }
    assert_eq!(missing(execute_assert("status", &params(&[("actual", "1")]))), "expected");
    assert_eq!(
        missing(execute_assert("status", &params(&[("expected", "ok"), ("actual", "1")]))),
        "expected must be a number"
    );
    assert_eq!(
        missing(execute_assert("status", &params(&[("expected", "65536"), ("actual", "1")]))),
        "expected must be a number"
    );
    assert_eq!(missing(execute_assert("status", &params(&[("expected", "1")]))), "actual");
    assert_eq!(
        missing(execute_assert("status", &params(&[("expected", "1"), ("actual", "")]))),
        "actual must be a number"
    );
    assert_eq!(
        unknown(execute_assert("json_path", &params(&[]))),
        "assert/json_path not yet implemented"
    );
    assert_eq!(unknown(execute_assert("header", &params(&[]))), "assert/header");
}

#[test]
fn a_step_on_its_platform() {
    let run = |platform: Platform, uses: &str, has_page: bool| {
        execute_step(
            &platform,
            &ParsedAction::parse(uses).unwrap(),
            has_page,
            &params(&[
                ("function", "f"),
                ("method", "m"),
                ("ms", "1"),
                ("path", "/"),
                ("url", "https://example.com"),
                ("selector", "#go"),
            ]),
            &json(vec![]),
        )
    };
    assert!(matches!(
        run(Platform::Playwright, "page/goto", true),
        Ok(Plan::Browser(BrowserCall::Goto { url })) if url == "https://example.com"
    ));
    assert!(matches!(
        run(Platform::Playwright, "assert/visible", true),
        Ok(Plan::Browser(BrowserCall::Visible { selector })) if selector == "#go"
    ));
    assert!(matches!(
        run(Platform::Playwright, "wait/timeout", true),
        Ok(Plan::Browser(BrowserCall::Sleep { ms: 1 }))
    ));
    assert!(matches!(
        run(Platform::Playwright, "element/click", true),
        Ok(Plan::Browser(BrowserCall::Click { .. }))
    ));
    assert!(matches!(
        run(Platform::Playwright, "browser/pdf", true),
        Ok(Plan::Browser(BrowserCall::Pdf { path })) if path == "/"
    ));
    assert!(matches!(
        run(Platform::Playwright, "network/mock", true),
        Ok(Plan::Browser(BrowserCall::Nothing))
    ));
    assert_eq!(unknown(run(Platform::Playwright, "wait/ms", true)), "wait/ms");
    match run(Platform::Playwright, "page/goto", false) {
        Err(ExecutorError::ConfigError(message)) => {
            assert_eq!(message, "Playwright action requires page_id")
        }
        other => panic!("unexpected: {:?}", other),
    }
    assert_eq!(
        mismatch(run(Platform::Playwright, "node/call", true)),
        "Action category Node not supported on Playwright"
    );
    assert!(matches!(run(Platform::Nodejs, "node/call", false), Ok(Plan::Call { .. })));
    assert!(matches!(run(Platform::Nodejs, "mock/clear", false), Ok(Plan::MockClear)));
    assert!(matches!(run(Platform::Nodejs, "assert/anything", false), Ok(Plan::AssertCustom { .. })));
    assert!(matches!(run(Platform::Nodejs, "wait/ms", false), Ok(Plan::Sleep(1))));
    assert_eq!(
        mismatch(run(Platform::Nodejs, "page/goto", false)),
        "Action category Page not supported on Node.js"
    );
    assert!(matches!(
        run(Platform::Rust, "rs/call", false),
        Ok(Plan::Call { function, .. }) if function == "f"
    ));
    assert!(matches!(run(Platform::Python, "py/call", false), Ok(Plan::Call { .. })));
    assert!(matches!(
        run(Platform::Java, "java/call", false),
        Ok(Plan::Call { function, .. }) if function == "m"
    ));
    assert!(matches!(run(Platform::Go, "go/call", false), Ok(Plan::Call { .. })));
    assert_eq!(
        mismatch(run(Platform::Go, "mock/clear", false)),
        "Action category Mock not supported on Go"
    );
    assert_eq!(
        mismatch(run(Platform::Rust, "clock/set", false)),
        "Action category Clock not supported on Rust"
    );
    assert!(matches!(run(Platform::Web, "web/get", false), Ok(Plan::Http(_))));
    assert_eq!(unknown(run(Platform::Web, "assert/x", false)), "assert/x");
    assert_eq!(
        mismatch(run(Platform::Web, "bash/exec", false)),
        "Action category Bash not supported on Web"
    );
}

#[test]
fn what_replies_make_of_a_step() {
    let called = call_outcome("{\"id\":1}".to_string());
    assert!(called.success);
    assert_eq!(called.outputs.get("result"), Some(&"{\"id\":1}".to_string()));
    assert_eq!(
        ctx_get_outcome(Some("\"Ann\"".to_string())).outputs.get("value"),
        Some(&"\"Ann\"".to_string())
    );
    assert_eq!(ctx_get_outcome(None).outputs.get("value"), Some(&"null".to_string()));
    assert_eq!(ctx_clear_outcome(12).outputs.get("cleared"), Some(&"12".to_string()));

    assert!(returns_outcome("add", &number(3), &number(3), "3", "3").unwrap().success);
    match returns_outcome("add", &number(4), &number(3), "Number(4)", "Number(3)") {
        Err(ExecutorError::AssertionFailed(message)) => assert_eq!(
            message,
            "Function 'add' returned Number(4), expected Number(3)"
        ),
        other => panic!("unexpected: {:?}", other),
    }
    assert!(throws_outcome("explode", true).unwrap().success);
    match throws_outcome("explode", false) {
        Err(ExecutorError::AssertionFailed(message)) => {
            assert_eq!(message, "Function 'explode' did not throw an error")
        }
        other => panic!("unexpected: {:?}", other),
    }
    assert!(ctx_equals_outcome("user", None, &JsonValue::Null, "Null", "Null").is_ok());
    assert!(ctx_equals_outcome("user", Some(&text("a")), &text("a"), "", "").is_ok());
    match ctx_equals_outcome("user", None, &text("a"), "Null", "String(\"a\")") {
        Err(ExecutorError::AssertionFailed(message)) => assert_eq!(
            message,
            "Context 'user': expected String(\"a\"), got Null"
        ),
        other => panic!("unexpected: {:?}", other),
    }

    let held = custom_outcome(
        "userExists",
        &AssertionResult::pass_with_values(number(1), number(1)),
        Some("1".to_string()),
        Some("1".to_string()),
    )
    .unwrap();
    assert_eq!(held.outputs.get("actual"), Some(&"1".to_string()));
    assert_eq!(held.outputs.get("expected"), Some(&"1".to_string()));
    assert!(custom_outcome("x", &AssertionResult::pass(), None, None).unwrap().outputs.is_empty());
    match custom_outcome("userExists", &AssertionResult::fail("no such user"), None, None) {
        Err(ExecutorError::AssertionFailed(message)) => assert_eq!(message, "no such user"),
        other => panic!("unexpected: {:?}", other),
    }
    let silent = AssertionResult { success: false, message: None, actual: None, expected: None };
    match custom_outcome("userExists", &silent, None, None) {
        Err(ExecutorError::AssertionFailed(message)) => {
            assert_eq!(message, "Custom assertion 'userExists' failed")
        }
        other => panic!("unexpected: {:?}", other),
    }
}

#[test]
fn what_a_response_makes_of_a_step() {
    let response = WebResponse {
        status: 201,
        headers: NameMap::new(),
        body: JsonValue::Object(vec![("id".to_string(), number(7))]),
        elapsed_ms: 12,
    };
    let step = web_outcome(
        response,
        "{\"id\":7}".to_string(),
        vec![("id".to_string(), "7".to_string())],
    );
    assert!(step.success);
    assert_eq!(step.error, None);
    assert_eq!(step.outputs.get("status"), Some(&"201".to_string()));
    assert_eq!(step.outputs.get("body"), Some(&"{\"id\":7}".to_string()));
    assert_eq!(step.outputs.get("elapsed_ms"), Some(&"12".to_string()));
    assert_eq!(step.outputs.get("body.id"), Some(&"7".to_string()));
    assert_eq!(step.response.unwrap().status, 201);

    let response = WebResponse {
        status: 503,
        headers: NameMap::new(),
        body: JsonValue::Null,
        elapsed_ms: 0,
    };
    let step = web_outcome(response, "null".to_string(), vec![]);
    assert!(!step.success);
    assert_eq!(step.error, Some("HTTP 503 error".to_string()));
    assert_eq!(step.outputs.len(), 3);
}

/// What the shell makes of `command`, as far as these tests need it:
/// the program that would run, and what it is known to write.
fn shell(list: &[(&str, &str)], exit_code: i32, stdout: &str, stderr: &str) -> Result<StepResult, ExecutorError> {
    match execute_bash_action("exec", &params(list))? {
        Plan::Bash(command) => {
            assert_eq!(command.program, "sh");
            assert_eq!(command.args[0], "-c");
            bash_result(Some(exit_code), stdout, stderr)
        }
        other => panic!("unexpected: {:?}", other),
    }
}

#[test]
fn test_bash_exec_command() {
    let result = shell(&[("command", "echo hello")], 0, "hello\n", "").unwrap();
    assert!(result.success);
    assert_eq!(result.outputs.get("stdout"), Some(&"hello".to_string()));
    assert_eq!(result.outputs.get("exit_code"), Some(&"0".to_string()));
}

#[test]
fn test_bash_exec_failing_command() {
    let result = shell(&[("command", "exit 1")], 1, "", "");
    assert!(result.is_err());
}

#[test]
fn test_bash_exec_with_working_dir() {
    let list = [("command", "pwd"), ("working_dir", "/tmp")];
    match execute_bash_action("exec", &params(&list)).unwrap() {
        Plan::Bash(command) => assert_eq!(command.working_dir, Some("/tmp".to_string())),
        other => panic!("unexpected: {:?}", other),
    }
    let result = shell(&list, 0, "/tmp\n", "").unwrap();
    assert!(result.success);
    let stdout = result.outputs.get("stdout").unwrap();
    assert!(stdout == "/tmp" || stdout == "/private/tmp");
}

#[test]
fn test_bash_exec_missing_params() {
    let result = execute_bash_action("exec", &params(&[]));
    assert!(result.is_err());
}

#[test]
fn what_the_texts_of_a_request_stand_for() {
    let plan = |headers: Option<&str>, body: Option<&str>, query: Option<&str>| HttpPlan {
        method: "POST".to_string(),
        path: "/users".to_string(),
        headers: headers.map(str::to_string),
        body: body.map(str::to_string),
        query: query.map(str::to_string),
    };
    let request = web_request_of(plan(None, None, None), None, None, None);
    assert_eq!((request.method.as_str(), request.path.as_str()), ("POST", "/users"));
    assert!(request.headers.is_none() && request.body.is_none() && request.query.is_none());

    // texts that read as JSON are what they read as
    let request = web_request_of(
        plan(Some("{\"X\":\"1\"}"), Some("{\"a\":1}"), Some("{\"page\":\"2\"}")),
        Some(params(&[("X", "1")])),
        Some(JsonValue::Object(vec![("a".to_string(), number(1))])),
        Some(params(&[("page", "2")])),
    );
    assert_eq!(request.headers.unwrap().get("X"), Some(&"1".to_string()));
    assert_eq!(request.query.unwrap().get("page"), Some(&"2".to_string()));
    assert_eq!(request.body.unwrap().get("a").unwrap().as_u64(), Some(1));

    // headers and a query that read as nothing count as none given; a
    // body is then sent as a string
    let request = web_request_of(plan(Some("oops"), Some("plain text"), Some("[1]")), None, None, None);
    assert!(request.headers.unwrap().is_empty());
    assert!(request.query.unwrap().is_empty());
    assert_eq!(request.body.unwrap().as_str(), Some(&"plain text".to_string()));
    // what was read for a text that is not there is not used
    let request = web_request_of(
        plan(None, None, None),
        Some(params(&[("X", "1")])),
        Some(number(1)),
        Some(params(&[("page", "2")])),
    );
    assert!(request.headers.is_none() && request.body.is_none() && request.query.is_none());

    assert!(value_or_null(None, None).is_null());
    assert!(value_or_null(None, Some(number(1))).is_null());
    assert_eq!(value_or_null(Some("7".to_string()), Some(number(7))).as_u64(), Some(7));
    assert_eq!(
        value_or_null(Some("seven".to_string()), None).as_str(),
        Some(&"seven".to_string())
    );
    assert_eq!(json_or_string("x".to_string(), None).as_str(), Some(&"x".to_string()));
    assert!(json_or_string("null".to_string(), Some(JsonValue::Null)).is_null());
}
