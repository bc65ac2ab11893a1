use testing_actions::action::ParsedAction;
use testing_actions::context::ExecutionContext;
use testing_actions::error::ExecutorError;
use testing_actions::executor::{
    admit_step, deadline_passed, deps_succeeded, failed_job, failed_step, get_job_platform,
    job_gate, overlay,
    resolve_step_platform, route_hook, route_step, topological_sort, BridgeNeed, ExecutionPhase,
    Executor, JobGate, JobRun, StepPlan, StepRoute, WorkflowRun,
};
use testing_actions::job::{DependsOn, Job, Step, Workflow};
use testing_actions::mock_clock::{parse_time, Instant};
use testing_actions::namemap::NameMap;
use testing_actions::platform::{
    BrowserType, NodejsConfig, NodejsHooksConfig, Platform, PlatformsConfig, PythonConfig,
    WebConfig,
};
use testing_actions::result::{JobResult, StepResult};

fn step(uses: &str) -> Step {
    Step {
        name: None,
        platform: None,
        uses: uses.to_string(),
        with: NameMap::new(),
        env: NameMap::new(),
        condition: None,
        id: None,
        timeout: None,
        continue_on_error: false,
        retry: None,
    }
}

fn job(needs: &[&str], steps: Vec<Step>) -> Job {
    Job {
        name: None,
        platform: None,
        browser: BrowserType::default(),
        headless: true,
        viewport: None,
        needs: needs.iter().map(|n| n.to_string()).collect(),
        condition: None,
        env: NameMap::new(),
        before: vec![],
        after: vec![],
        steps,
        continue_on_error: false,
        timeout: None,
    }
}

fn jobs(list: &[(&str, &[&str])]) -> NameMap<Job> {
    let mut jobs = NameMap::new();
    for (name, needs) in list {
        jobs.insert(name.to_string(), job(needs, vec![step("wait/ms")]));
    }
    jobs
}

fn workflow(jobs: NameMap<Job>) -> Workflow {
    Workflow {
        name: "w".to_string(),
        depends_on: DependsOn::default(),
        platform: None,
        platforms: PlatformsConfig::default(),
        env: NameMap::new(),
        defaults: None,
        before: vec![],
        after: vec![],
        jobs,
    }
}

fn result(success: bool) -> JobResult {
    JobResult { success, outputs: NameMap::new(), steps: vec![] }
}

fn web_config(base_url: &str) -> WebConfig {
    WebConfig {
        base_url: base_url.to_string(),
        headers: NameMap::new(),
        timeout: 30000,
        auth: None,
        retry: None,
        follow_redirects: true,
        validate_ssl: true,
    }
}

fn wall() -> Instant {
    Instant::new(1_900_000_000, 0).unwrap()
}

#[test]
fn jobs_are_put_after_what_they_need() {
    let order = topological_sort(&jobs(&[
        ("deploy", &["test", "lint"]),
        ("test", &["build"]),
        ("lint", &[]),
        ("build", &[]),
    ]))
    .unwrap();
    assert_eq!(order, vec!["build", "test", "lint", "deploy"]);

    let order = topological_sort(&jobs(&[("a", &[]), ("b", &["a"]), ("c", &["b"])])).unwrap();
    assert_eq!(order, vec!["a", "b", "c"]);

    let order = topological_sort(&jobs(&[("c", &["b"]), ("b", &["a"]), ("a", &[])])).unwrap();
    assert_eq!(order, vec!["a", "b", "c"]);

    let order = topological_sort(&jobs(&[("x", &["y", "y"]), ("y", &[])])).unwrap();
    assert_eq!(order, vec!["y", "x"]);

    assert!(topological_sort(&jobs(&[])).unwrap().is_empty());
}

#[test]
fn every_job_stands_after_all_it_needs() {
    let list: &[(&str, &[&str])] = &[
        ("g", &["e", "f"]),
        ("a", &[]),
        ("e", &["c", "d"]),
        ("c", &["a", "b"]),
        ("f", &["d"]),
        ("b", &["a"]),
        ("d", &["b"]),
    ];
    let order = topological_sort(&jobs(list)).unwrap();
    assert_eq!(order.len(), list.len());
    for (name, needs) in list {
        let place = order.iter().position(|n| n == name).unwrap();
        for need in needs.iter() {
            let before = order.iter().position(|n| n == need).unwrap();
            assert!(before < place, "{} must run before {}", need, name);
        }
    }
}

#[test]
fn needs_in_a_circle_are_refused_with_the_way_round() {
    match topological_sort(&jobs(&[("A", &["A"])])) {
        Err(ExecutorError::CircularDependency(path)) => assert_eq!(path, vec!["A"]),
        other => panic!("unexpected: {:?}", other),
    }
    match topological_sort(&jobs(&[("first", &[]), ("a", &["b"]), ("b", &["c"]), ("c", &["a"])])) {
        Err(ExecutorError::CircularDependency(path)) => {
            assert_eq!(path, vec!["a", "b", "c"]);
            assert!(path.contains(&"a".to_string()));
        }
        other => panic!("unexpected: {:?}", other),
    }
    let error = topological_sort(&jobs(&[("A", &["A"])])).unwrap_err();
    assert_eq!(error.message(), "Circular dependency detected: [\"A\"]");
}

#[test]
fn a_need_that_names_no_job_is_refused_first() {
    match topological_sort(&jobs(&[("a", &["ghost"]), ("b", &["b"])])) {
        Err(ExecutorError::JobNotFound(name)) => assert_eq!(name, "ghost"),
        other => panic!("unexpected: {:?}", other),
    }
    match topological_sort(&jobs(&[("b", &["b"]), ("a", &["b", "phantom", "ghost"])])) {
        Err(ExecutorError::JobNotFound(name)) => assert_eq!(name, "phantom"),
        other => panic!("unexpected: {:?}", other),
    }
    assert_eq!(
        ExecutorError::JobNotFound("ghost".to_string()).message(),
        "Job not found: ghost"
    );
}

#[test]
fn the_platform_of_a_step() {
    let mut s = step("web/get");
    let mut j = job(&[], vec![]);
    assert_eq!(resolve_step_platform(&s, &j, &None), Platform::Web);
    assert_eq!(resolve_step_platform(&s, &j, &Some(Platform::Go)), Platform::Go);
    j.platform = Some(Platform::Java);
    assert_eq!(resolve_step_platform(&s, &j, &Some(Platform::Go)), Platform::Java);
    assert_eq!(get_job_platform(&j, &Some(Platform::Go)), Some(Platform::Java));
    s.platform = Some(Platform::Rust);
    assert_eq!(resolve_step_platform(&s, &j, &Some(Platform::Go)), Platform::Rust);

    let j = job(&[], vec![]);
    assert_eq!(get_job_platform(&j, &Some(Platform::Go)), Some(Platform::Go));
    assert_eq!(get_job_platform(&j, &None), None);
    assert_eq!(resolve_step_platform(&step("wait/ms"), &j, &None), Platform::Playwright);
    assert_eq!(resolve_step_platform(&step("nonsense"), &j, &None), Platform::Playwright);
    assert_eq!(resolve_step_platform(&step("py/call"), &j, &None), Platform::Python);
}

#[test]
fn where_a_step_goes() {
    let j = job(&[], vec![]);
    assert!(matches!(
        route_step(&step("wait/ms"), &j, &None),
        Ok(StepRoute::Agnostic(action)) if action.action == "ms"
    ));
    assert!(matches!(
        route_step(&step("wait/ms"), &j, &Some(Platform::Web)),
        Ok(StepRoute::OnPlatform(Platform::Web, _))
    ));
    assert!(matches!(
        route_step(&step("node/call"), &j, &None),
        Ok(StepRoute::OnPlatform(Platform::Nodejs, _))
    ));
    assert!(matches!(
        route_step(&step("node/call"), &j, &Some(Platform::Web)),
        Ok(StepRoute::OnPlatform(Platform::Web, _))
    ));
    match route_step(&step("nothing"), &j, &None) {
        Err(ExecutorError::UnknownAction(message)) => assert_eq!(
            message,
            "Invalid action format 'nothing'. Expected 'category/action'"
        ),
        other => panic!("unexpected: {:?}", other),
    }

    // a hook does not look at the platform of a job, and an action that
    // works everywhere stays in the engine whatever the workflow names
    assert!(matches!(
        route_hook(&step("clock/reset"), &Some(Platform::Web)),
        Ok(StepRoute::Agnostic(_))
    ));
    assert!(matches!(
        route_hook(&step("web/post"), &None),
        Ok(StepRoute::OnPlatform(Platform::Web, _))
    ));
    assert!(matches!(
        route_hook(&step("web/post"), &Some(Platform::Nodejs)),
        Ok(StepRoute::OnPlatform(Platform::Nodejs, _))
    ));
    let mut hook = step("bash/exec");
    hook.platform = Some(Platform::Go);
    assert!(matches!(
        route_hook(&hook, &None),
        Ok(StepRoute::OnPlatform(Platform::Go, _))
    ));

    let s = step("node/call");
    let action = ParsedAction::parse("node/call").unwrap();
    assert!(admit_step(&s, &action, &Platform::Nodejs).is_ok());
    match admit_step(&s, &action, &Platform::Web) {
        Err(ExecutorError::PlatformMismatch(message)) => assert_eq!(
            message,
            "Action 'node/call' is not compatible with Web platform"
        ),
        other => panic!("unexpected: {:?}", other),
    }
}

#[test]
fn whether_a_job_runs() {
    let ctx = ExecutionContext::new();
    let mut results: NameMap<JobResult> = NameMap::new();
    let mut j = job(&["build"], vec![]);

    // a job that left no result stands in nobody's way
    assert!(deps_succeeded(&j, &results));
    assert_eq!(job_gate(&j, &results, &ctx).unwrap(), JobGate::Run);
    results.insert("build".to_string(), result(false));
    assert!(!deps_succeeded(&j, &results));
    assert_eq!(job_gate(&j, &results, &ctx).unwrap(), JobGate::FailedDependencies);
    j.continue_on_error = true;
    assert_eq!(job_gate(&j, &results, &ctx).unwrap(), JobGate::Run);
    j.continue_on_error = false;
    results.insert("build".to_string(), result(true));
    assert!(deps_succeeded(&j, &results));
    assert_eq!(job_gate(&j, &results, &ctx).unwrap(), JobGate::Run);

    j.condition = Some("failure()".to_string());
    assert_eq!(job_gate(&j, &results, &ctx).unwrap(), JobGate::ConditionFalse);
    j.condition = Some("always()".to_string());
    assert_eq!(job_gate(&j, &results, &ctx).unwrap(), JobGate::Run);
    j.condition = Some("${{ env.MISSING }}".to_string());
    assert!(matches!(
        job_gate(&j, &results, &ctx),
        Err(ExecutorError::ExpressionError(_))
    ));
    // failed dependencies are decided before the condition is looked at
    results.insert("build".to_string(), result(false));
    assert_eq!(job_gate(&j, &results, &ctx).unwrap(), JobGate::FailedDependencies);
    assert!(!failed_job().success);
}

#[test]
fn the_jobs_of_a_workflow_in_turn() {
    let mut list = jobs(&[
        ("build", &[]),
        ("test", &["build"]),
        ("docs", &[]),
        ("deploy", &["test"]),
        ("notify", &["deploy"]),
        ("report", &[]),
    ]);
    let mut docs = job(&[], vec![step("wait/ms")]);
    docs.condition = Some("failure()".to_string());
    list.insert("docs".to_string(), docs);
    let mut notify = job(&["deploy"], vec![step("wait/ms")]);
    notify.continue_on_error = true;
    list.insert("notify".to_string(), notify);
    let w = workflow(list);
    let mut ctx = ExecutionContext::with_run_id("run-7".to_string());
    let mut run = WorkflowRun::begin(&w).unwrap();

    assert_eq!(run.next_job(&w, &mut ctx).unwrap(), Some("build".to_string()));
    assert_eq!(ctx.current_job, Some("build".to_string()));
    let mut outputs = NameMap::new();
    outputs.insert("artifact".to_string(), "dist.zip".to_string());
    let built = JobResult { success: true, outputs, steps: vec![] };
    assert!(run.record_job("build", Ok(built), &mut ctx));
    assert_eq!(ctx.get_job_output("build", "artifact"), Some(&"dist.zip".to_string()));
    assert!(!run.record_job("build", Ok(result(false)), &mut ctx));

    assert_eq!(run.next_job(&w, &mut ctx).unwrap(), Some("test".to_string()));
    assert!(run.record_job(
        "test",
        Err(ExecutorError::StepFailed("boom".to_string())),
        &mut ctx
    ));
    assert!(ctx.get_job_outputs("test").is_none());

    // docs is passed over, deploy fails without running, notify runs
    // since it continues on error
    assert_eq!(run.next_job(&w, &mut ctx).unwrap(), Some("notify".to_string()));
    assert!(run.record_job("notify", Ok(result(true)), &mut ctx));
    assert_eq!(run.next_job(&w, &mut ctx).unwrap(), Some("report".to_string()));
    assert!(run.record_job("report", Ok(result(true)), &mut ctx));
    assert_eq!(run.next_job(&w, &mut ctx).unwrap(), None);
    assert_eq!(run.next_job(&w, &mut ctx).unwrap(), None);

    let done = run.finish(ctx.run_id.clone());
    assert!(!done.success);
    assert_eq!(done.run_id, "run-7");
    assert_eq!(done.jobs.len(), 5);
    assert!(done.jobs.get("build").unwrap().success);
    assert!(!done.jobs.get("test").unwrap().success);
    assert!(!done.jobs.get("deploy").unwrap().success);
    assert!(done.jobs.get("deploy").unwrap().steps.is_empty());
    assert!(done.jobs.get("notify").unwrap().success);
    assert!(done.jobs.get("docs").is_none());
}

#[test]
fn a_workflow_whose_jobs_all_succeed_succeeds() {
    let w = workflow(jobs(&[("a", &[]), ("b", &["a"])]));
    let mut ctx = ExecutionContext::new();
    let mut run = WorkflowRun::begin(&w).unwrap();
    while let Some(name) = run.next_job(&w, &mut ctx).unwrap() {
        run.record_job(&name, Ok(result(true)), &mut ctx);
    }
    assert!(run.finish("r".to_string()).success);

    let empty = workflow(NameMap::new());
    let mut run = WorkflowRun::begin(&empty).unwrap();
    assert_eq!(run.next_job(&empty, &mut ctx).unwrap(), None);
    assert!(run.finish("r".to_string()).success);

    let circular = workflow(jobs(&[("A", &["A"])]));
    assert!(matches!(
        WorkflowRun::begin(&circular),
        Err(ExecutorError::CircularDependency(path)) if path.contains(&"A".to_string())
    ));
}

fn output(name: &str, value: &str, success: bool) -> StepResult {
    let mut outputs = NameMap::new();
    outputs.insert(name.to_string(), value.to_string());
    StepResult { success, outputs, error: None, response: None }
}

#[test]
fn the_steps_of_a_job_in_turn() {
    let mut first = step("wait/ms");
    first.id = Some("one".to_string());
    let mut second = step("node/call");
    second.condition = Some("${{ steps.one.outputs.go }} == 'no'".to_string());
    let mut third = step("page/goto");
    third.id = Some("three".to_string());
    third.condition = Some("${{ steps.one.outputs.go }}".to_string());
    let fourth = step("page/click");
    let fifth = step("oops");
    let mut j = job(&[], vec![first, second, third, fourth, fifth]);
    j.env.insert("STAGE".to_string(), "test".to_string());

    let mut ctx = ExecutionContext::new();
    ctx.set_env("STAGE".to_string().as_str(), "dev".to_string());
    let mut run = JobRun::begin(&j, &mut ctx);
    assert_eq!(ctx.get_env("STAGE"), Some(&"test".to_string()));

    match run.next_step(&j, &None, &mut ctx).unwrap() {
        StepPlan::Agnostic { index, action } => {
            assert_eq!(index, 0);
            assert_eq!(action.action, "ms");
        }
        other => panic!("unexpected: {:?}", other),
    }
    assert_eq!(ctx.current_step, Some("one".to_string()));
    run.record_step(&j, 0, Ok(output("go", "yes", true)), &mut ctx);
    assert_eq!(ctx.get_output("one", "go"), Some(&"yes".to_string()));

    // the second step is passed over: its condition does not hold
    match run.next_step(&j, &None, &mut ctx).unwrap() {
        StepPlan::OnPlatform { index, platform, launch_browser, .. } => {
            assert_eq!(index, 2);
            assert_eq!(platform, Platform::Playwright);
            assert!(launch_browser);
        }
        other => panic!("unexpected: {:?}", other),
    }
    assert_eq!(ctx.current_step, Some("three".to_string()));
    run.browser_launched();
    run.record_step(&j, 2, Ok(output("url", "about:blank", true)), &mut ctx);

    match run.next_step(&j, &None, &mut ctx).unwrap() {
        StepPlan::OnPlatform { index, launch_browser, .. } => {
            assert_eq!(index, 3);
            assert!(!launch_browser);
        }
        other => panic!("unexpected: {:?}", other),
    }
    // no id: the current step stays, and the outputs are not kept
    assert_eq!(ctx.current_step, Some("three".to_string()));
    run.record_step(&j, 3, Ok(output("lost", "x", true)), &mut ctx);

    assert!(matches!(
        run.next_step(&j, &None, &mut ctx),
        Err(ExecutorError::UnknownAction(_))
    ));
    assert!(matches!(run.next_step(&j, &None, &mut ctx), Ok(StepPlan::Done)));

    let done = run.finish();
    assert!(done.success);
    assert_eq!(done.steps.len(), 3);
    assert!(done.outputs.is_empty());
}

#[test]
fn a_failed_step_stops_the_job_unless_it_goes_on() {
    let j = job(&[], vec![step("wait/ms"), step("wait/ms"), step("wait/ms")]);
    let mut ctx = ExecutionContext::new();
    let mut run = JobRun::begin(&j, &mut ctx);
    assert!(matches!(run.next_step(&j, &None, &mut ctx), Ok(StepPlan::Agnostic { index: 0, .. })));
    run.record_step(&j, 0, Err(ExecutorError::StepFailed("boom".to_string())), &mut ctx);
    assert!(matches!(run.next_step(&j, &None, &mut ctx), Ok(StepPlan::Done)));
    let done = run.finish();
    assert!(!done.success);
    assert_eq!(done.steps.len(), 1);
    assert_eq!(done.steps[0].error, Some("Step failed: boom".to_string()));

    let mut lenient = step("wait/ms");
    lenient.continue_on_error = true;
    lenient.id = Some("lenient".to_string());
    let j = job(&[], vec![lenient, step("wait/ms")]);
    let mut run = JobRun::begin(&j, &mut ctx);
    run.next_step(&j, &None, &mut ctx).unwrap();
    run.record_step(&j, 0, Ok(output("kept", "anyway", false)), &mut ctx);
    assert_eq!(ctx.get_output("lenient", "kept"), Some(&"anyway".to_string()));
    assert!(matches!(run.next_step(&j, &None, &mut ctx), Ok(StepPlan::Agnostic { index: 1, .. })));
    run.record_step(&j, 1, Ok(StepResult::default()), &mut ctx);
    let done = run.finish();
    assert!(!done.success);
    assert_eq!(done.steps.len(), 2);

    let mut j = job(&[], vec![step("wait/ms"), step("wait/ms")]);
    j.continue_on_error = true;
    let mut run = JobRun::begin(&j, &mut ctx);
    run.next_step(&j, &None, &mut ctx).unwrap();
    run.record_step(&j, 0, Ok(output("a", "b", false)), &mut ctx);
    assert!(matches!(run.next_step(&j, &None, &mut ctx), Ok(StepPlan::Agnostic { index: 1, .. })));

    let j = job(&[], vec![step("wait/ms")]);
    let run = JobRun::begin(&j, &mut ctx);
    let aborted = run.abort();
    assert!(!aborted.success);
    assert!(aborted.steps.is_empty());
    let failure = failed_step(&ExecutorError::ConfigError("x".to_string()));
    assert_eq!(failure.error, Some("Configuration error: x".to_string()));
}

#[test]
fn a_condition_that_does_not_evaluate_ends_the_job() {
    let mut bad = step("wait/ms");
    bad.condition = Some("${{ env.NOPE }}".to_string());
    let j = job(&[], vec![bad]);
    let mut ctx = ExecutionContext::new();
    let mut run = JobRun::begin(&j, &mut ctx);
    assert!(matches!(
        run.next_step(&j, &None, &mut ctx),
        Err(ExecutorError::ExpressionError(_))
    ));
}

#[test]
fn bridges_come_when_they_are_needed() {
    let mut platforms = PlatformsConfig::default();
    platforms.web = Some(web_config("http://runner.local"));
    let mut executor = Executor::new().with_platforms(platforms);
    assert_eq!(executor.bridge_need(Platform::Web).unwrap(), BridgeNeed::Start);
    match executor.bridge_need(Platform::Nodejs) {
        Err(ExecutorError::ConfigError(message)) => {
            assert_eq!(message, "Nodejs platform requires configuration in workflow")
        }
        other => panic!("unexpected: {:?}", other),
    }

    let mut of_workflow = PlatformsConfig::default();
    of_workflow.web = Some(web_config("http://workflow.local"));
    of_workflow.nodejs = Some(NodejsConfig {
        registry: "./registry.js".to_string(),
        working_dir: None,
        env_file: None,
        typescript: false,
        hooks: NodejsHooksConfig::default(),
    });
    let mut env = NameMap::new();
    env.insert("STAGE".to_string(), "test".to_string());
    executor.set_env("STAGE", "dev");
    executor.set_env("KEEP", "me");
    executor.set_secret("TOKEN", "t");
    executor.prepare(of_workflow, &env);
    assert_eq!(executor.context().get_env("STAGE"), Some(&"test".to_string()));
    assert_eq!(executor.context().get_env("KEEP"), Some(&"me".to_string()));
    assert_eq!(executor.context().get_secret("TOKEN"), Some(&"t".to_string()));
    assert_eq!(
        executor.platform_configs().web.as_ref().unwrap().base_url,
        "http://workflow.local"
    );
    assert_eq!(executor.bridge_need(Platform::Nodejs).unwrap(), BridgeNeed::Start);

    executor.bridge_started(Platform::Web);
    executor.bridge_started(Platform::Nodejs);
    executor.bridge_started(Platform::Web);
    assert!(executor.is_active(Platform::Web));
    assert!(!executor.is_active(Platform::Go));
    assert_eq!(executor.bridge_need(Platform::Web).unwrap(), BridgeNeed::Ready);
    // of the bridges that are there, only those that asked for the clock
    assert_eq!(executor.clock_targets(), vec![Platform::Nodejs]);

    let mut base = PlatformsConfig::default();
    base.python = Some(PythonConfig {
        script: "a.py".to_string(),
        interpreter: "python3".to_string(),
        working_dir: None,
        venv: None,
        env: NameMap::new(),
        hooks: Default::default(),
    });
    base.web = Some(web_config("http://base"));
    let mut over = PlatformsConfig::default();
    over.web = Some(web_config("http://over"));
    let merged = overlay(base, over);
    assert_eq!(merged.web.unwrap().base_url, "http://over");
    assert_eq!(merged.python.unwrap().script, "a.py");
    assert!(merged.go.is_none());
}

fn params(list: &[(&str, &str)]) -> NameMap<String> {
    let mut map = NameMap::new();
    for (key, value) in list {
        map.insert(key.to_string(), value.to_string());
    }
    map
}

#[test]
fn actions_on_the_clock() {
    let mut executor = Executor::new();
    let set = executor
        .execute_clock_action("set", &params(&[("time", "2024-01-15T10:30:00Z")]), wall())
        .unwrap();
    assert!(set.success);
    assert_eq!(set.outputs.get("time"), Some(&"2024-01-15T10:30:00+00:00".to_string()));
    assert_eq!(set.outputs.get("time_ms"), Some(&"1705314600000".to_string()));
    assert_eq!(executor.clock().now(wall()), parse_time("2024-01-15T10:30:00Z").unwrap());

    // every bridge that takes the clock is sent the same state
    executor.bridge_started(Platform::Nodejs);
    executor.bridge_started(Platform::Java);
    executor.bridge_started(Platform::Go);
    let state = executor.clock().get_sync_state();
    assert_eq!(executor.clock_targets(), vec![Platform::Nodejs, Platform::Java]);
    assert_eq!(state.virtual_time_ms, Some(1_705_314_600_000));
    assert_eq!(state.virtual_time_iso, Some("2024-01-15T10:30:00+00:00".to_string()));
    assert!(state.frozen);

    // after a main step the clock moves on; after a hook it does not
    assert!(executor.after_step(ExecutionPhase::Before, wall()).is_none());
    assert!(executor.after_step(ExecutionPhase::After, wall()).is_none());
    let synced = executor.after_step(ExecutionPhase::Steps, wall()).unwrap();
    assert_eq!(synced.virtual_time_ms, Some(1_705_314_603_000));

    let forward = executor
        .execute_clock_action("forward", &params(&[("duration", "1h30m")]), wall())
        .unwrap();
    assert_eq!(forward.outputs.get("time_ms"), Some(&"1705320003000".to_string()));
    let until = executor
        .execute_clock_action("forward-until", &params(&[("time", "2024-01-15T13:00:00Z")]), wall())
        .unwrap();
    assert_eq!(until.outputs.get("time"), Some(&"2024-01-15T13:00:00+00:00".to_string()));
    executor
        .execute_clock_action("timezone", &params(&[("timezone", "+05:30")]), wall())
        .unwrap();
    assert_eq!(executor.clock().timezone_offset_secs(), 19_800);
    executor
        .execute_clock_action(
            "set",
            &params(&[("time", "1705315800"), ("timezone", "PST")]),
            wall(),
        )
        .unwrap();
    assert_eq!(executor.clock().timezone_offset_secs(), -28_800);
    assert_eq!(executor.clock().now(wall()).timestamp(), 1_705_315_800);

    let reset = executor.execute_clock_action("reset", &params(&[]), wall()).unwrap();
    assert!(reset.outputs.is_empty());
    assert!(!executor.clock().is_active());
    assert!(executor.after_step(ExecutionPhase::Steps, wall()).is_none());
}

fn config_error(r: Result<StepResult, ExecutorError>) -> String {
    match r {
        Err(ExecutorError::ConfigError(message)) => message,
        other => panic!("unexpected: {:?}", other),
    }
}

#[test]
fn actions_on_the_clock_that_are_refused() {
    let mut executor = Executor::new();
    assert_eq!(
        config_error(executor.execute_clock_action("set", &params(&[]), wall())),
        "clock/set requires 'time' parameter"
    );
    assert_eq!(
        config_error(executor.execute_clock_action("set", &params(&[("time", "soon")]), wall())),
        "Invalid time format: Invalid time format: could not parse 'soon' as ISO 8601 or Unix timestamp"
    );
    assert_eq!(
        config_error(executor.execute_clock_action("timezone", &params(&[]), wall())),
        "clock/timezone requires 'timezone' parameter"
    );
    assert_eq!(
        config_error(executor.execute_clock_action("forward", &params(&[]), wall())),
        "clock/forward requires 'duration' parameter"
    );
    assert_eq!(
        config_error(executor.execute_clock_action(
            "forward",
            &params(&[("duration", "500ms")]),
            wall()
        )),
        "Invalid duration format: Invalid duration format: expected number before unit 's'"
    );
    assert_eq!(
        config_error(executor.execute_clock_action("forward-until", &params(&[]), wall())),
        "clock/forward-until requires 'time' parameter"
    );
    assert!(!executor.clock().is_active());

    // the time is set even where the timezone is refused
    assert_eq!(
        config_error(executor.execute_clock_action(
            "set",
            &params(&[("time", "2024-01-15T10:30:00Z"), ("timezone", "nowhere")]),
            wall()
        )),
        "Invalid timezone format: Invalid timezone: unknown timezone 'nowhere'. Use UTC, numeric offset (+05:30), or common abbreviations (EST, PST, etc.)"
    );
    assert!(executor.clock().is_active());
    assert_eq!(
        config_error(executor.execute_clock_action(
            "forward-until",
            &params(&[("time", "2024-01-15T09:00:00Z")]),
            wall()
        )),
        "Cannot forward clock: Cannot move clock backwards: current time is 2024-01-15 10:30:00 UTC, target is 2024-01-15 09:00:00 UTC"
    );
    assert_eq!(
        config_error(executor.execute_clock_action(
            "forward",
            &params(&[("duration", "18446744073709551615")]),
            wall()
        )),
        "Cannot forward clock: time out of range"
    );
    match executor.execute_clock_action("rewind", &params(&[]), wall()) {
        Err(ExecutorError::UnknownAction(message)) => {
            assert_eq!(message, "Unknown clock action: rewind")
        }
        other => panic!("unexpected: {:?}", other),
    }
    assert_eq!(executor.clock().now(wall()), parse_time("2024-01-15T10:30:00Z").unwrap());
}

#[test]
fn a_step_past_its_deadline_has_failed() {
    match deadline_passed(1500) {
        ExecutorError::StepFailed(message) => assert_eq!(message, "Step timed out after 1500ms"),
        other => panic!("unexpected: {:?}", other),
    }
    assert_eq!(deadline_passed(0).message(), "Step failed: Step timed out after 0ms");
    let result = failed_step(&deadline_passed(u64::MAX));
    assert!(!result.success);
    assert_eq!(
        result.error,
        Some("Step failed: Step timed out after 18446744073709551615ms".to_string())
    );
}

#[test]
fn a_new_executor_holds_nothing_but_its_run_id_and_a_new_clock() {
    for executor in [Executor::new(), Executor::default()] {
        assert!(executor.platform_configs().is_empty());
        for platform in [Platform::Playwright, Platform::Nodejs, Platform::Web] {
            assert!(!executor.is_active(platform));
        }
        assert!(executor.clock_targets().is_empty());

        let context = executor.context();
        assert_eq!(context.run_id.len(), 36);
        assert!(context.env.is_empty() && context.secrets.is_empty());
        assert!(context.steps.is_empty() && context.jobs.is_empty());
        assert!(context.current_job.is_none() && context.current_step.is_none());

        let clock = executor.clock();
        assert!(!clock.is_active());
        assert!(clock.is_auto_advance_enabled());
        assert_eq!(clock.timezone_offset_secs(), 0);
        assert_eq!(clock.now(wall()), wall());
        let state = clock.get_sync_state();
        assert!(!state.frozen);
        assert_eq!(state.virtual_time_ms, None);
        assert_eq!(state.virtual_time_iso, None);
        assert_eq!(state.timezone_offset_secs, 0);
    }
    // two executors, two runs
    assert_ne!(Executor::new().context().run_id, Executor::new().context().run_id);

    // the step of a new clock is 3 seconds
    let mut executor = Executor::new();
    executor
        .execute_clock_action("set", &params(&[("time", "2024-01-15T10:30:00Z")]), wall())
        .unwrap();
    let moved = executor.after_step(ExecutionPhase::Steps, wall()).unwrap();
    assert_eq!(moved.virtual_time_ms, Some(1_705_314_603_000));
}
