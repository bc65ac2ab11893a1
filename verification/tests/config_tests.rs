use testing_actions::namemap::NameMap;
use testing_actions::platform::{
    default_follow_redirects, default_headless, default_java_executable, default_max_retries,
    default_python_interpreter, default_retry_initial_delay, default_retry_max_delay,
    default_retry_status_codes, default_validate_ssl, default_web_timeout, BrowserType, GoConfig,
    JavaConfig, NodejsConfig, NodejsHooksConfig, Platform, PlatformsConfig, PlaywrightConfig,
    PythonConfig, RustConfig, WebConfig,
};
use testing_actions::rpc::{FunctionInfo, MethodInfo};

#[test]
fn test_go_config_with_binary() {
    let config = GoConfig {
        binary: Some("./test/registry".to_string()),
        go_run: None,
        go_build: None,
        working_dir: Some("./".to_string()),
        env: NameMap::new(),
        hooks: Default::default(),
    };
    assert_eq!(config.binary, Some("./test/registry".to_string()));
}

#[test]
fn test_go_config_with_go_run() {
    let config = GoConfig {
        binary: None,
        go_run: Some("./cmd/registry/main.go".to_string()),
        go_build: None,
        working_dir: None,
        env: NameMap::new(),
        hooks: Default::default(),
    };
    assert_eq!(config.go_run, Some("./cmd/registry/main.go".to_string()));
}

#[test]
fn test_go_config_with_env() {
    let mut env = NameMap::new();
    env.insert("DATABASE_URL".to_string(), "postgres://localhost/test".to_string());
    let config = GoConfig {
        binary: Some("./registry".to_string()),
        go_run: None,
        go_build: None,
        working_dir: None,
        env,
        hooks: Default::default(),
    };
    assert_eq!(
        config.env.get("DATABASE_URL"),
        Some(&"postgres://localhost/test".to_string())
    );
}

#[test]
fn go_test_function_info() {
    let info = FunctionInfo::new("test_fn", "A test function");
    assert_eq!(info.name, "test_fn");
    assert_eq!(info.description, "A test function");
}

#[test]
fn registry_test_function_info() {
    let info = FunctionInfo::new("test_fn", "A test function");
    assert_eq!(info.name, "test_fn");
    assert_eq!(info.description, "A test function");
}

#[test]
fn python_test_function_info() {
    let info = FunctionInfo::new("test_fn", "A test function");
    assert_eq!(info.name, "test_fn");
}

#[test]
fn test_java_config_basic() {
    let config = JavaConfig {
        jar: Some("./target/test-registry.jar".to_string()),
        main_class: "com.example.TestRegistry".to_string(),
        classpath: vec![],
        java_home: "java".to_string(),
        jvm_args: vec![],
        working_dir: Some("./".to_string()),
        env: NameMap::new(),
        hooks: Default::default(),
    };
    assert_eq!(config.main_class, "com.example.TestRegistry");
}

#[test]
fn test_java_config_with_classpath() {
    let config = JavaConfig {
        jar: None,
        main_class: "com.example.TestRegistry".to_string(),
        classpath: vec!["./lib/dep1.jar".to_string(), "./lib/dep2.jar".to_string()],
        java_home: "java".to_string(),
        jvm_args: vec!["-Xmx512m".to_string()],
        working_dir: None,
        env: NameMap::new(),
        hooks: Default::default(),
    };
    assert_eq!(config.classpath.len(), 2);
    assert_eq!(config.jvm_args, vec!["-Xmx512m"]);
}

#[test]
fn test_java_config_with_env() {
    let mut env = NameMap::new();
    env.insert(
        "DATABASE_URL".to_string(),
        "jdbc:postgresql://localhost/test".to_string(),
    );
    let config = JavaConfig {
        jar: Some("./registry.jar".to_string()),
        main_class: "com.example.Registry".to_string(),
        classpath: vec![],
        java_home: "java".to_string(),
        jvm_args: vec![],
        working_dir: None,
        env,
        hooks: Default::default(),
    };
    assert_eq!(
        config.env.get("DATABASE_URL"),
        Some(&"jdbc:postgresql://localhost/test".to_string())
    );
}

#[test]
fn test_method_info() {
    let info = MethodInfo::new("testMethod", "A test method");
    assert_eq!(info.name, "testMethod");
    assert_eq!(info.description, "A test method");
}

#[test]
fn test_nodejs_config_basic() {
    let config = NodejsConfig {
        registry: "./test/registry.js".to_string(),
        working_dir: Some("./".to_string()),
        env_file: None,
        typescript: false,
        hooks: NodejsHooksConfig::default(),
    };

    assert_eq!(config.registry, "./test/registry.js");
    assert!(!config.typescript);
}

#[test]
fn test_nodejs_config_typescript() {
    let config = NodejsConfig {
        registry: "./test/registry.ts".to_string(),
        working_dir: None,
        env_file: Some(".env.test".to_string()),
        typescript: true,
        hooks: NodejsHooksConfig::default(),
    };

    assert!(config.typescript);
    assert_eq!(config.env_file, Some(".env.test".to_string()));
}

#[test]
fn test_python_config_basic() {
    let config = PythonConfig {
        script: "./test/registry.py".to_string(),
        interpreter: "python3".to_string(),
        working_dir: Some("./".to_string()),
        venv: None,
        env: NameMap::new(),
        hooks: Default::default(),
    };
    assert_eq!(config.script, "./test/registry.py");
}

#[test]
fn test_python_config_with_venv() {
    let config = PythonConfig {
        script: "./test/registry.py".to_string(),
        interpreter: "python3".to_string(),
        working_dir: None,
        venv: Some("./.venv".to_string()),
        env: NameMap::new(),
        hooks: Default::default(),
    };
    assert_eq!(config.venv, Some("./.venv".to_string()));
}

#[test]
fn test_python_config_with_env() {
    let mut env = NameMap::new();
    env.insert(
        "DATABASE_URL".to_string(),
        "postgres://localhost/test".to_string(),
    );
    let config = PythonConfig {
        script: "./registry.py".to_string(),
        interpreter: "python3".to_string(),
        working_dir: None,
        venv: None,
        env,
        hooks: Default::default(),
    };
    assert_eq!(
        config.env.get("DATABASE_URL"),
        Some(&"postgres://localhost/test".to_string())
    );
}

#[test]
fn test_rust_config_with_binary() {
    let config = RustConfig {
        binary: Some("./target/debug/test-registry".to_string()),
        cargo_bin: None,
        working_dir: Some("./".to_string()),
        env: NameMap::new(),
        hooks: Default::default(),
    };
    assert_eq!(config.binary, Some("./target/debug/test-registry".to_string()));
}

#[test]
fn test_rust_config_with_cargo_bin() {
    let config = RustConfig {
        binary: None,
        cargo_bin: Some("my-registry".to_string()),
        working_dir: None,
        env: NameMap::new(),
        hooks: Default::default(),
    };
    assert_eq!(config.cargo_bin, Some("my-registry".to_string()));
}

#[test]
fn test_rust_config_with_env() {
    let mut env = NameMap::new();
    env.insert("DATABASE_URL".to_string(), "postgres://localhost/test".to_string());
    let config = RustConfig {
        binary: Some("./registry".to_string()),
        cargo_bin: None,
        working_dir: None,
        env,
        hooks: Default::default(),
    };
    assert_eq!(
        config.env.get("DATABASE_URL"),
        Some(&"postgres://localhost/test".to_string())
    );
}

#[test]
fn defaults_of_configurations() {
    assert!(default_headless());
    assert_eq!(default_python_interpreter(), "python3");
    assert_eq!(default_java_executable(), "java");
    assert_eq!(default_web_timeout(), 30000);
    assert!(default_follow_redirects());
    assert!(default_validate_ssl());
    assert_eq!(default_max_retries(), 3);
    assert_eq!(default_retry_initial_delay(), 1000);
    assert_eq!(default_retry_max_delay(), 10000);
    assert_eq!(default_retry_status_codes(), vec![429, 500, 502, 503, 504]);
    assert_eq!(Platform::default(), Platform::Playwright);
    assert_eq!(BrowserType::default(), BrowserType::Chromium);
}

#[test]
fn configured_platforms_come_in_the_fixed_order() {
    let mut platforms = PlatformsConfig::default();
    assert!(platforms.is_empty());
    assert!(platforms.configured_platforms().is_empty());
    assert!(!platforms.has_platform(&Platform::Web));

    platforms.web = Some(WebConfig {
        base_url: "http://localhost:3000".to_string(),
        headers: NameMap::new(),
        timeout: 30000,
        auth: None,
        retry: None,
        follow_redirects: true,
        validate_ssl: true,
    });
    platforms.playwright = Some(PlaywrightConfig::default());
    platforms.rust = Some(RustConfig {
        binary: None,
        cargo_bin: Some("registry".to_string()),
        working_dir: None,
        env: NameMap::new(),
        hooks: Default::default(),
    });

    assert!(!platforms.is_empty());
    assert!(platforms.has_platform(&Platform::Web));
    assert!(platforms.has_platform(&Platform::Rust));
    assert!(!platforms.has_platform(&Platform::Go));
    assert_eq!(
        platforms.configured_platforms(),
        vec![Platform::Playwright, Platform::Rust, Platform::Web]
    );
}
