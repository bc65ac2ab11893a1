use testing_actions::bridge::calls::{
    call_params, clock_params, clock_request, function_request, integer, list_key, list_request,
    request, texts_object, BridgeCall,
};
use testing_actions::bridge::go::{binary_name, GoBridge};
use testing_actions::bridge::java::JavaBridge;
use testing_actions::bridge::nodejs::NodejsBridge;
use testing_actions::bridge::process::{join, CommandLine};
use testing_actions::bridge::python::PythonBridge;
use testing_actions::bridge::rust::RustBridge;
use testing_actions::bridge::{call_result, BridgeConfig};
use testing_actions::error::BridgeError;
use testing_actions::job::NumberValue;
use testing_actions::json::{same_json, JsonValue};
use testing_actions::mock_clock::ClockSyncState;
use testing_actions::namemap::NameMap;
use testing_actions::platform::{
    GoConfig, GoHooksConfig, JavaConfig, JavaHooksConfig, NodejsConfig, NodejsHooksConfig, Platform,
    PythonConfig, PythonHooksConfig, RustConfig, RustHooksConfig,
};
use testing_actions::rpc::RequestIds;

fn text(s: &str) -> JsonValue {
    JsonValue::Text(s.to_string())
}

fn number(n: u64) -> JsonValue {
    JsonValue::Number(NumberValue::UInt(n))
}

fn object(list: Vec<(&str, JsonValue)>) -> JsonValue {
    JsonValue::Object(list.into_iter().map(|(k, v)| (k.to_string(), v)).collect())
}

fn env(list: &[(&str, &str)]) -> NameMap<String> {
    let mut map = NameMap::new();
    for (k, v) in list {
        map.insert(k.to_string(), v.to_string());
    }
    map
}

fn shown(command: &CommandLine) -> (String, Vec<String>, Option<String>, Vec<(String, String)>) {
    (
        command.program.clone(),
        command.args.clone(),
        command.working_dir.clone(),
        command.env.clone().into_entries(),
    )
}

fn words(list: &[&str]) -> Vec<String> {
    list.iter().map(|s| s.to_string()).collect()
}

#[test]
fn the_parameters_of_each_call() {
    let cases: Vec<(BridgeCall, JsonValue)> = vec![
        (
            BridgeCall::Call { name: "createUser".to_string(), args: number(1) },
            object(vec![("args", number(1)), ("name", text("createUser"))]),
        ),
        (BridgeCall::CtxGet { key: "k".to_string() }, object(vec![("key", text("k"))])),
        (
            BridgeCall::CtxSet { key: "k".to_string(), value: JsonValue::Null },
            object(vec![("key", text("k")), ("value", JsonValue::Null)]),
        ),
        (
            BridgeCall::CtxClear { pattern: "user_*".to_string() },
            object(vec![("pattern", text("user_*"))]),
        ),
        (
            BridgeCall::MockSet { target: "db.find".to_string(), value: number(3) },
            object(vec![("target", text("db.find")), ("value", number(3))]),
        ),
        (BridgeCall::MockClear, object(vec![])),
        (
            BridgeCall::HookCall { hook: "before_all".to_string() },
            object(vec![("hook", text("before_all"))]),
        ),
        (
            BridgeCall::AssertCustom {
                name: "is_even".to_string(),
                params: vec![("value".to_string(), number(4))],
            },
            object(vec![("name", text("is_even")), ("params", object(vec![("value", number(4))]))]),
        ),
        (
            BridgeCall::SetExecutionInfo {
                run_id: "r".to_string(),
                job_name: "j".to_string(),
                step_name: "s".to_string(),
            },
            object(vec![("jobName", text("j")), ("runId", text("r")), ("stepName", text("s"))]),
        ),
        (
            BridgeCall::SyncStepOutputs {
                step_id: "login".to_string(),
                outputs: env(&[("token", "abc"), ("id", "7")]),
            },
            object(vec![
                ("outputs", object(vec![("token", text("abc")), ("id", text("7"))])),
                ("stepId", text("login")),
            ]),
        ),
    ];
    for (call, expected) in cases {
        let shown = format!("{:?}", call);
        assert!(same_json(&call_params(call), &expected), "{}", shown);
    }
    assert!(same_json(&texts_object(&NameMap::new()), &object(vec![])));
    assert!(same_json(&integer(0), &number(0)));
    assert!(same_json(&integer(i64::MAX), &number(i64::MAX as u64)));
    assert!(same_json(&integer(-1), &JsonValue::Number(NumberValue::Int(-1))));
}

#[test]
fn the_state_of_the_clock_as_it_is_sent() {
    let state = ClockSyncState {
        virtual_time_ms: Some(1_700_000_000_000),
        virtual_time_iso: Some("2023-11-14T22:13:20+00:00".to_string()),
        frozen: true,
        timezone_offset_secs: -18000,
    };
    assert!(same_json(
        &clock_params(state.clone()),
        &object(vec![
            ("frozen", JsonValue::Bool(true)),
            ("timezone_offset_secs", JsonValue::Number(NumberValue::Int(-18000))),
            ("virtual_time_iso", text("2023-11-14T22:13:20+00:00")),
            ("virtual_time_ms", number(1_700_000_000_000)),
        ])
    ));
    let real = ClockSyncState {
        virtual_time_ms: None,
        virtual_time_iso: None,
        frozen: false,
        timezone_offset_secs: 0,
    };
    assert!(same_json(
        &clock_params(real),
        &object(vec![
            ("frozen", JsonValue::Bool(false)),
            ("timezone_offset_secs", number(0)),
            ("virtual_time_iso", JsonValue::Null),
            ("virtual_time_ms", JsonValue::Null),
        ])
    ));
    let mut ids = RequestIds::new();
    let sent = clock_request(&mut ids, state.clone());
    assert_eq!((sent.id, sent.method.as_str(), sent.jsonrpc.as_str()), (1, "clock.sync", "2.0"));
    assert!(same_json(&sent.params, &clock_params(state.clone())));
    let sent = request(Platform::Python, &mut ids, BridgeCall::SyncClock(state.clone())).unwrap();
    assert_eq!((sent.id, sent.method.as_str()), (2, "clock.sync"));
    // a bridge without a clock refuses, and no id is spent
    assert!(matches!(
        request(Platform::Go, &mut ids, BridgeCall::SyncClock(state.clone())),
        Err(BridgeError::UnsupportedAction(name)) if name == "sync_clock"
    ));
    assert!(matches!(
        request(Platform::Web, &mut ids, BridgeCall::CtxGet { key: "k".to_string() }),
        Err(BridgeError::UnsupportedAction(name)) if name == "ctx_get"
    ));
    assert!(matches!(
        request(Platform::Rust, &mut ids, BridgeCall::MockClear),
        Err(BridgeError::UnsupportedAction(name)) if name == "mock_clear"
    ));
    assert_eq!(ids.take(), 3);
}

#[test]
fn requests_by_platform() {
    let mut ids = RequestIds::new();
    let call = |name: &str| BridgeCall::Call { name: name.to_string(), args: JsonValue::Null };
    let sent = request(Platform::Java, &mut ids, call("m")).unwrap();
    assert_eq!((sent.id, sent.method.as_str()), (1, "method.call"));
    let sent = request(Platform::Go, &mut ids, call("f")).unwrap();
    assert_eq!((sent.id, sent.method.as_str()), (2, "fn.call"));
    assert!(same_json(&sent.params, &object(vec![("args", JsonValue::Null), ("name", text("f"))])));
    let sent = request(Platform::Nodejs, &mut ids, BridgeCall::MockClear).unwrap();
    assert_eq!((sent.id, sent.method.as_str()), (3, "mock.clear"));
    let sent = function_request(&mut ids, "fn.call", "g", number(2));
    assert_eq!((sent.id, sent.method.as_str()), (4, "fn.call"));
    assert!(same_json(&sent.params, &object(vec![("args", number(2)), ("name", text("g"))])));

    let sent = list_request(Platform::Java, &mut ids, false);
    assert_eq!((sent.id, sent.method.as_str()), (5, "list_methods"));
    assert!(same_json(&sent.params, &object(vec![])));
    assert_eq!(list_request(Platform::Java, &mut ids, true).method, "list_assertions");
    assert_eq!(list_request(Platform::Rust, &mut ids, false).method, "list_functions");
    assert_eq!(list_key(Platform::Java, false), "methods");
    assert_eq!(list_key(Platform::Java, true), "assertions");
    assert_eq!(list_key(Platform::Python, false), "functions");
    assert_eq!(list_key(Platform::Python, true), "assertions");
    assert!(call_result(&object(vec![("result", number(1))])).as_u64() == Some(1));
}

#[test]
fn how_a_go_registry_is_started() {
    let config = |binary: Option<&str>, go_run: Option<&str>, go_build: Option<&str>| GoConfig {
        binary: binary.map(str::to_string),
        go_run: go_run.map(str::to_string),
        go_build: go_build.map(str::to_string),
        working_dir: Some("./svc".to_string()),
        env: env(&[("DATABASE_URL", "postgres://localhost/test")]),
        hooks: GoHooksConfig::default(),
    };
    let the_env = vec![("DATABASE_URL".to_string(), "postgres://localhost/test".to_string())];

    let bridge = GoBridge::from_config(&config(Some("./registry"), Some("x.go"), Some("./cmd"))).unwrap();
    assert!(bridge.build.is_none());
    assert_eq!(
        shown(&bridge.run),
        ("./registry".to_string(), vec![], Some("./svc".to_string()), the_env.clone())
    );

    let bridge = GoBridge::from_config(&config(None, Some("./cmd/registry/main.go"), Some("./cmd"))).unwrap();
    assert!(bridge.build.is_none());
    assert_eq!(
        shown(&bridge.run),
        (
            "go".to_string(),
            words(&["run", "./cmd/registry/main.go"]),
            Some("./svc".to_string()),
            the_env.clone()
        )
    );

    let bridge = GoBridge::from_config(&config(None, None, Some("./cmd/registry"))).unwrap();
    assert_eq!(
        shown(bridge.build.as_ref().unwrap()),
        (
            "go".to_string(),
            words(&["build", "-o", "__cmd_registry_bridge", "./cmd/registry"]),
            Some("./svc".to_string()),
            vec![]
        )
    );
    assert_eq!(
        shown(&bridge.run),
        ("__cmd_registry_bridge".to_string(), vec![], Some("./svc".to_string()), the_env)
    );
    assert_eq!(binary_name("a\\b.c/d"), "a_b_c_d_bridge");
    assert_eq!(binary_name(""), "_bridge");

    match GoBridge::from_config(&config(None, None, None)) {
        Err(BridgeError::ConfigError(m)) => {
            assert_eq!(m, "Go config must specify 'binary', 'go_run', or 'go_build'")
        }
        other => panic!("unexpected: {:?}", other),
    }
    let mut ids = RequestIds::new();
    let bridge = GoBridge::from_config(&config(Some("r"), None, None)).unwrap();
    let state = ClockSyncState {
        virtual_time_ms: None,
        virtual_time_iso: None,
        frozen: false,
        timezone_offset_secs: 3600,
    };
    assert_eq!(bridge.sync_clock(&mut ids, state).method, "clock.sync");
}

#[test]
fn how_a_java_registry_is_started() {
    let mut config = JavaConfig {
        jar: Some("app.jar".to_string()),
        main_class: "com.example.Registry".to_string(),
        classpath: words(&["lib/a.jar", "lib/b.jar"]),
        java_home: "java".to_string(),
        jvm_args: words(&["-Xmx512m", "-ea"]),
        working_dir: None,
        env: env(&[("A", "1")]),
        hooks: JavaHooksConfig::default(),
    };
    let bridge = JavaBridge::from_config(&config, false);
    assert_eq!(
        shown(&bridge.run),
        (
            "java".to_string(),
            words(&["-Xmx512m", "-ea", "-cp", "app.jar:lib/a.jar:lib/b.jar", "com.example.Registry"]),
            None,
            vec![("A".to_string(), "1".to_string())]
        )
    );
    assert_eq!(
        JavaBridge::from_config(&config, true).run.args[3],
        "app.jar;lib/a.jar;lib/b.jar"
    );
    config.jar = None;
    assert_eq!(JavaBridge::from_config(&config, false).run.args[3], "lib/a.jar:lib/b.jar");
    config.classpath = vec![];
    config.jvm_args = vec![];
    assert_eq!(
        JavaBridge::from_config(&config, false).run.args,
        words(&["-cp", ".", "com.example.Registry"])
    );
    config.jar = Some("only.jar".to_string());
    assert_eq!(JavaBridge::from_config(&config, true).run.args[1], "only.jar");

    assert_eq!(join(&words(&["a", "", "c"]), ", "), "a, , c");
    assert_eq!(join(&words(&["a"]), ", "), "a");
    assert_eq!(join(&vec![], ", "), "");

    let bridge = JavaBridge::from_config(&config, false);
    let mut ids = RequestIds::new();
    let sent = bridge.method_call(&mut ids, "add", JsonValue::Array(vec![number(1), number(2)]));
    assert_eq!((sent.id, sent.method.as_str()), (1, "method.call"));
    assert!(same_json(
        &sent.params,
        &object(vec![("args", JsonValue::Array(vec![number(1), number(2)])), ("name", text("add"))])
    ));
    let sent = bridge.list_methods(&mut ids);
    assert_eq!((sent.id, sent.method.as_str()), (2, "list_methods"));
}

#[test]
fn how_a_node_registry_is_started() {
    let bridge = NodejsBridge::with_registry("/abs/registry.js", "./app", true, Some(".env.test"));
    assert_eq!(
        shown(&bridge.run),
        (
            "node".to_string(),
            words(&[
                "extensions/nodejs/server.js",
                "--registry",
                "/abs/registry.js",
                "--typescript",
                "--env-file",
                ".env.test"
            ]),
            Some("./app".to_string()),
            vec![]
        )
    );
    let bridge = NodejsBridge::with_registry("r.js", ".", false, None);
    assert_eq!(bridge.run.args, words(&["extensions/nodejs/server.js", "--registry", "r.js"]));

    // a path that is not absolute stands below the working directory
    let bridge = NodejsBridge::new("registry.js", "app", false, Some("e"));
    assert_eq!(bridge.run.args.len(), 5);
    assert_ne!(bridge.run.args[2], "registry.js");
    assert!(bridge.run.args[2].starts_with("app"));
    assert!(bridge.run.args[2].ends_with("registry.js"));
    assert_eq!(bridge.run.args[3], "--env-file");

    let config = NodejsConfig {
        registry: "tests/registry.ts".to_string(),
        working_dir: None,
        env_file: None,
        typescript: true,
        hooks: NodejsHooksConfig::default(),
    };
    let bridge = NodejsBridge::from_config(&config);
    assert_eq!(bridge.run.program, "node");
    assert_eq!(bridge.run.working_dir, Some(".".to_string()));
    assert_eq!(bridge.run.args.len(), 4);
    assert!(bridge.run.args[2].ends_with("registry.ts"));
    assert_eq!(bridge.run.args[3], "--typescript");
    let mut ids = RequestIds::new();
    assert_eq!(bridge.fn_call(&mut ids, "f", JsonValue::Null).method, "fn.call");
    assert_eq!(BridgeConfig::Nodejs(config).platform(), Platform::Nodejs);
}

#[test]
fn how_a_python_registry_is_started() {
    let config = PythonConfig {
        script: "registry.py".to_string(),
        interpreter: "python3".to_string(),
        working_dir: Some("tests".to_string()),
        venv: Some(".venv".to_string()),
        env: env(&[("PYTHONPATH", "src")]),
        hooks: PythonHooksConfig::default(),
    };
    let bridge = PythonBridge::from_config(&config, None);
    assert_eq!(
        shown(&bridge.run),
        (
            "python3".to_string(),
            words(&["registry.py"]),
            Some("tests".to_string()),
            vec![("PYTHONPATH".to_string(), "src".to_string())]
        )
    );
    let bridge = PythonBridge::from_config(&config, Some(".venv/bin/python"));
    assert_eq!(bridge.run.program, ".venv/bin/python");
    assert_eq!(bridge.run.args, words(&["registry.py"]));
    let mut ids = RequestIds::new();
    let sent = bridge.fn_call(&mut ids, "f", text("x"));
    assert!(same_json(&sent.params, &object(vec![("args", text("x")), ("name", text("f"))])));
}

#[test]
fn how_a_rust_registry_is_started() {
    let config = |binary: Option<&str>, cargo_bin: Option<&str>| RustConfig {
        binary: binary.map(str::to_string),
        cargo_bin: cargo_bin.map(str::to_string),
        working_dir: Some("svc".to_string()),
        env: env(&[("RUST_LOG", "debug")]),
        hooks: RustHooksConfig::default(),
    };
    let the_env = vec![("RUST_LOG".to_string(), "debug".to_string())];

    let with_binary = config(Some("./target/debug/registry"), Some("registry"));
    assert!(RustBridge::build_commands(&with_binary).is_none());
    let bridge = RustBridge::from_config(&with_binary, None).unwrap();
    assert_eq!(
        shown(&bridge.run),
        ("./target/debug/registry".to_string(), vec![], Some("svc".to_string()), the_env.clone())
    );

    let built_first = config(None, Some("registry"));
    let (build, metadata) = RustBridge::build_commands(&built_first).unwrap();
    assert_eq!(
        shown(&build),
        ("cargo".to_string(), words(&["build", "--bin", "registry"]), Some("svc".to_string()), vec![])
    );
    assert_eq!(
        shown(&metadata),
        (
            "cargo".to_string(),
            words(&["metadata", "--format-version", "1", "--no-deps"]),
            Some("svc".to_string()),
            vec![]
        )
    );
    let path = RustBridge::built_binary(
        &object(vec![("packages", JsonValue::Array(vec![])), ("target_directory", text("/work/target"))]),
        "registry",
    )
    .unwrap();
    assert_eq!(path, "/work/target/debug/registry");
    for metadata in [object(vec![]), object(vec![("target_directory", number(1))]), JsonValue::Null] {
        assert!(matches!(
            RustBridge::built_binary(&metadata, "registry"),
            Err(BridgeError::StartupFailed(m)) if m == "No target_directory in metadata"
        ));
    }
    let bridge = RustBridge::from_config(&built_first, Some(&path)).unwrap();
    assert_eq!(
        shown(&bridge.run),
        ("/work/target/debug/registry".to_string(), vec![], Some("svc".to_string()), the_env)
    );
    assert!(matches!(
        RustBridge::from_config(&built_first, None),
        Err(BridgeError::StartupFailed(m)) if m == "cargo build --bin registry failed"
    ));

    let neither = config(None, None);
    assert!(RustBridge::build_commands(&neither).is_none());
    for built in [None, Some("x")] {
        assert!(matches!(
            RustBridge::from_config(&neither, built),
            Err(BridgeError::StartupFailed(m))
                if m == "Rust config requires either 'binary' or 'cargo_bin'"
        ));
    }
}
