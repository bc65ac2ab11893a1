use testing_actions::loader::{LoadError, WorkflowLoader};
use testing_actions::namemap::NameMap;
use testing_actions::executor::overlay;
use testing_actions::platform::{
    GoConfig, GoHooksConfig, Platform, PlatformsConfig, PlaywrightConfig, WebConfig,
};
use testing_actions::runner_config::{
    default_parallel, default_sqlite_path, DatabaseConfigYaml, Profile, RunnerConfig,
};

fn web(base_url: &str) -> PlatformsConfig {
    let mut platforms = PlatformsConfig::default();
    platforms.web = Some(WebConfig {
        base_url: base_url.to_string(),
        headers: NameMap::new(),
        timeout: 30000,
        auth: None,
        retry: None,
        follow_redirects: true,
        validate_ssl: true,
    });
    platforms
}

#[test]
fn test_default_config() {
    let config = RunnerConfig::default();
    assert_eq!(config.parallel, 4);
    assert!(!config.fail_fast);
    assert!(!config.has_profiles());
}

#[test]
fn test_default_runner_config() {
    let config = RunnerConfig::default();
    assert_eq!(config.parallel, 4);
    assert!(!config.fail_fast);
    assert!(config.platforms.is_empty());
    assert!(matches!(config.database, DatabaseConfigYaml::Memory));
    assert!(config.before.is_empty());
    assert!(config.after.is_empty());
    assert_eq!(default_parallel(), 4);
    assert_eq!(default_sqlite_path(), ".testing-actions/runs.db");
}

#[test]
fn test_profile_names() {
    let config = RunnerConfig::default();
    assert_eq!(config.profile_names(), vec!["default".to_string()]);

    let mut config = RunnerConfig::default();
    config.profiles.insert("a".to_string(), Profile::default());
    config.profiles.insert("b".to_string(), Profile::default());
    let names = config.profile_names();
    assert_eq!(names.len(), 2);
    assert!(names.contains(&"a".to_string()));
    assert!(names.contains(&"b".to_string()));
    assert!(config.has_profiles());
}

#[test]
fn test_platforms_for() {
    let mut config = RunnerConfig::default();
    config.platforms = web("http://default.local");
    let mut staging = Profile::default();
    staging.platforms = web("http://staging.local");
    config.profiles.insert("staging".to_string(), staging);

    let default_platforms = config.platforms_for("default");
    assert_eq!(&default_platforms.web().unwrap().base_url, "http://default.local");

    let staging_platforms = config.platforms_for("staging");
    assert_eq!(&staging_platforms.web().unwrap().base_url, "http://staging.local");

    // a profile that is not there, and a profile called `default`, fall
    // back to the configuration itself
    assert_eq!(config.platforms_for("production").web().unwrap().base_url, "http://default.local");
    assert!(config.platforms_for("production").over.is_none());
    let mut shadow = Profile::default();
    shadow.platforms = web("http://shadow.local");
    config.profiles.insert("default".to_string(), shadow);
    assert_eq!(config.platforms_for("default").web().unwrap().base_url, "http://default.local");
}

#[test]
fn a_profile_lies_over_the_platforms_of_the_run() {
    let mut config = RunnerConfig::default();
    config.platforms = web("http://run.local");
    config.platforms.go = Some(GoConfig {
        binary: Some("./registry".to_string()),
        go_run: None,
        go_build: None,
        working_dir: None,
        env: NameMap::new(),
        hooks: GoHooksConfig::default(),
    });
    let mut profile = Profile::default();
    profile.platforms.go = Some(GoConfig {
        binary: None,
        go_run: Some("./cmd/main.go".to_string()),
        go_build: None,
        working_dir: None,
        env: NameMap::new(),
        hooks: GoHooksConfig::default(),
    });
    profile.platforms.playwright = Some(PlaywrightConfig::default());
    config.profiles.insert("source".to_string(), profile);

    let layers = config.platforms_for("source");
    // what the profile does not configure comes from the run
    assert_eq!(layers.web().unwrap().base_url, "http://run.local");
    // what both configure comes from the profile, whole
    assert_eq!(layers.go().unwrap().go_run, Some("./cmd/main.go".to_string()));
    assert_eq!(layers.go().unwrap().binary, None);
    assert!(layers.playwright().is_some());
    assert!(layers.nodejs().is_none() && layers.rust().is_none());
    assert!(layers.python().is_none() && layers.java().is_none());

    let merged = overlay(layers.base.clone(), layers.over.cloned().unwrap_or_default());
    assert_eq!(
        merged.configured_platforms(),
        vec![Platform::Playwright, Platform::Go, Platform::Web]
    );
    assert_eq!(merged.go.unwrap().go_run, Some("./cmd/main.go".to_string()));

    let alone = config.platforms_for("default");
    assert_eq!(alone.go().unwrap().binary, Some("./registry".to_string()));
    assert!(alone.playwright().is_none());
}

#[test]
fn which_files_are_workflows() {
    for name in ["a.yaml", "b.yml", "test-workflow_v2.yaml", ".hidden.yaml", "x.y.yml", "runner.yaml.yml"] {
        assert!(WorkflowLoader::is_workflow_file(name), "{}", name);
    }
    for name in [
        "runner.yaml",
        "runner.yml",
        "not-a-workflow.txt",
        "yaml",
        ".yaml",
        ".yml",
        "a.YAML",
        "a.yaml.bak",
        "a.yaml ",
        "a.",
        "",
        "README",
    ] {
        assert!(!WorkflowLoader::is_workflow_file(name), "{}", name);
    }
    assert_eq!(
        LoadError::Io("permission denied".to_string()).message(),
        "IO error: permission denied"
    );
    assert_eq!(
        LoadError::Yaml { file: "a.yaml".to_string(), error: "missing field `name`".to_string() }
            .message(),
        "YAML parse error in a.yaml: missing field `name`"
    );
}
