use testing_actions::job::{DependsOn, Job, ParamValue, Step, Workflow};
use testing_actions::namemap::NameMap;
use testing_actions::platform::{BrowserType, PlatformsConfig};
use testing_actions::workflow_dag::{DAGError, WorkflowDAG};

fn wait_step() -> Step {
    let mut with = NameMap::new();
    with.insert("duration".to_string(), ParamValue::Text("1".to_string()));
    Step {
        name: None,
        platform: None,
        uses: "wait/ms".to_string(),
        with,
        env: NameMap::new(),
        condition: None,
        id: None,
        timeout: None,
        continue_on_error: false,
        retry: None,
    }
}

fn goto_step() -> Step {
    let mut with = NameMap::new();
    with.insert("url".to_string(), ParamValue::Text("https://example.com".to_string()));
    Step {
        name: Some("Test step".to_string()),
        platform: None,
        uses: "page/goto".to_string(),
        with,
        env: NameMap::new(),
        condition: None,
        id: None,
        timeout: None,
        continue_on_error: false,
        retry: None,
    }
}

fn job_of(step: Step) -> Job {
    Job {
        name: None,
        platform: None,
        browser: BrowserType::default(),
        headless: true,
        viewport: None,
        needs: vec![],
        condition: None,
        env: NameMap::new(),
        before: vec![],
        after: vec![],
        steps: vec![step],
        continue_on_error: false,
        timeout: None,
    }
}

fn workflow(name: &str, deps: &[&str], always: bool, step: Step) -> Workflow {
    let mut jobs = NameMap::new();
    jobs.insert("test".to_string(), job_of(step));
    Workflow {
        name: name.to_string(),
        depends_on: DependsOn {
            workflows: deps.iter().map(|d| d.to_string()).collect(),
            always,
        },
        platform: None,
        platforms: PlatformsConfig::default(),
        env: NameMap::new(),
        defaults: None,
        before: vec![],
        after: vec![],
        jobs,
    }
}

fn make_workflow(name: &str, deps: Vec<&str>) -> Workflow {
    workflow(name, &deps, false, goto_step())
}

fn simple_workflow(name: &str) -> Workflow {
    workflow(name, &[], false, wait_step())
}

fn workflow_with_deps(name: &str, deps: &[&str]) -> Workflow {
    workflow(name, deps, false, wait_step())
}

fn workflow_with_always(name: &str, deps: &[&str]) -> Workflow {
    workflow(name, deps, true, wait_step())
}

#[test]
fn test_simple_dag() {
    let workflows = vec![
        make_workflow("setup", vec![]),
        make_workflow("tests", vec!["setup"]),
        make_workflow("cleanup", vec!["tests"]),
    ];

    let dag = WorkflowDAG::build(workflows).unwrap();

    assert_eq!(dag.len(), 3);
    assert_eq!(dag.execution_levels().len(), 3);
    assert_eq!(dag.execution_levels()[0], vec!["setup"]);
    assert_eq!(dag.execution_levels()[1], vec!["tests"]);
    assert_eq!(dag.execution_levels()[2], vec!["cleanup"]);
}

#[test]
fn test_parallel_dag() {
    let workflows = vec![
        make_workflow("setup", vec![]),
        make_workflow("api-tests", vec!["setup"]),
        make_workflow("e2e-tests", vec!["setup"]),
        make_workflow("cleanup", vec!["api-tests", "e2e-tests"]),
    ];

    let dag = WorkflowDAG::build(workflows).unwrap();

    assert_eq!(dag.execution_levels().len(), 3);
    assert_eq!(dag.execution_levels()[0], vec!["setup"]);
    assert_eq!(dag.execution_levels()[1], vec!["api-tests", "e2e-tests"]);
    assert_eq!(dag.execution_levels()[2], vec!["cleanup"]);
}

#[test]
fn test_independent_workflows() {
    let workflows = vec![
        make_workflow("a", vec![]),
        make_workflow("b", vec![]),
        make_workflow("c", vec![]),
    ];

    let dag = WorkflowDAG::build(workflows).unwrap();

    assert_eq!(dag.execution_levels().len(), 1);
    assert_eq!(dag.execution_levels()[0], vec!["a", "b", "c"]);
}

#[test]
fn test_missing_dependency() {
    let workflows = vec![make_workflow("tests", vec!["setup"])];

    let result = WorkflowDAG::build(workflows);
    assert!(matches!(result, Err(DAGError::MissingDependency { .. })));
}

#[test]
fn test_cyclic_dependency() {
    let workflows = vec![
        make_workflow("a", vec!["c"]),
        make_workflow("b", vec!["a"]),
        make_workflow("c", vec!["b"]),
    ];

    let result = WorkflowDAG::build(workflows);
    assert!(matches!(result, Err(DAGError::CyclicDependency)));
}

#[test]
fn test_duplicate_name() {
    let workflows = vec![
        make_workflow("same-name", vec![]),
        make_workflow("same-name", vec![]),
    ];

    let result = WorkflowDAG::build(workflows);
    assert!(matches!(result, Err(DAGError::DuplicateName(_))));
}

#[test]
fn test_dag_single_workflow() {
    let workflows = vec![simple_workflow("only")];
    let dag = WorkflowDAG::build(workflows).unwrap();

    assert_eq!(dag.len(), 1);
    assert_eq!(dag.execution_levels().len(), 1);
    assert_eq!(dag.execution_levels()[0], vec!["only"]);
}

#[test]
fn test_dag_linear_chain() {
    let workflows = vec![
        simple_workflow("first"),
        workflow_with_deps("second", &["first"]),
        workflow_with_deps("third", &["second"]),
        workflow_with_deps("fourth", &["third"]),
    ];
    let dag = WorkflowDAG::build(workflows).unwrap();

    assert_eq!(dag.len(), 4);
    assert_eq!(dag.execution_levels().len(), 4);
    assert_eq!(dag.execution_levels()[0], vec!["first"]);
    assert_eq!(dag.execution_levels()[1], vec!["second"]);
    assert_eq!(dag.execution_levels()[2], vec!["third"]);
    assert_eq!(dag.execution_levels()[3], vec!["fourth"]);
}

#[test]
fn test_dag_diamond_pattern() {
    let workflows = vec![
        simple_workflow("top"),
        workflow_with_deps("left", &["top"]),
        workflow_with_deps("right", &["top"]),
        workflow_with_deps("bottom", &["left", "right"]),
    ];
    let dag = WorkflowDAG::build(workflows).unwrap();

    assert_eq!(dag.len(), 4);
    assert_eq!(dag.execution_levels().len(), 3);
    assert_eq!(dag.execution_levels()[0], vec!["top"]);
    assert!(dag.execution_levels()[1].contains(&"left".to_string()));
    assert!(dag.execution_levels()[1].contains(&"right".to_string()));
    assert_eq!(dag.execution_levels()[2], vec!["bottom"]);
}

#[test]
fn test_dag_all_independent() {
    let workflows = vec![
        simple_workflow("a"),
        simple_workflow("b"),
        simple_workflow("c"),
        simple_workflow("d"),
    ];
    let dag = WorkflowDAG::build(workflows).unwrap();

    assert_eq!(dag.len(), 4);
    assert_eq!(dag.execution_levels().len(), 1);
    assert_eq!(dag.execution_levels()[0].len(), 4);
}

#[test]
fn test_dag_fan_out() {
    let mut workflows = vec![simple_workflow("root")];
    for i in 1..=5 {
        let name = format!("branch-{}", i);
        workflows.push(workflow_with_deps(&name, &["root"]));
    }
    let dag = WorkflowDAG::build(workflows).unwrap();

    assert_eq!(dag.len(), 6);
    assert_eq!(dag.execution_levels().len(), 2);
    assert_eq!(dag.execution_levels()[0], vec!["root"]);
    assert_eq!(dag.execution_levels()[1].len(), 5);
}

#[test]
fn test_dag_fan_in() {
    let mut workflows = vec![];
    for i in 1..=5 {
        let name = format!("source-{}", i);
        workflows.push(simple_workflow(&name));
    }
    workflows.push(workflow_with_deps(
        "sink",
        &["source-1", "source-2", "source-3", "source-4", "source-5"],
    ));
    let dag = WorkflowDAG::build(workflows).unwrap();

    assert_eq!(dag.len(), 6);
    assert_eq!(dag.execution_levels().len(), 2);
    assert_eq!(dag.execution_levels()[0].len(), 5);
    assert_eq!(dag.execution_levels()[1], vec!["sink"]);
}

#[test]
fn test_dag_complex_mixed() {
    let workflows = vec![
        simple_workflow("a"),
        simple_workflow("b"),
        workflow_with_deps("c", &["a"]),
        workflow_with_deps("d", &["a", "b"]),
        workflow_with_deps("e", &["c", "d"]),
        workflow_with_deps("f", &["d"]),
    ];
    let dag = WorkflowDAG::build(workflows).unwrap();

    assert_eq!(dag.len(), 6);

    assert!(dag.execution_levels()[0].contains(&"a".to_string()));
    assert!(dag.execution_levels()[0].contains(&"b".to_string()));
    assert_eq!(dag.execution_levels()[1], vec!["c", "d"]);
    assert_eq!(dag.execution_levels()[2], vec!["e", "f"]);
}

#[test]
fn test_dag_missing_dependency_error() {
    let workflows = vec![workflow_with_deps("orphan", &["nonexistent"])];
    let result = WorkflowDAG::build(workflows);

    assert!(result.is_err());
    let err = result.unwrap_err();
    assert!(err.message().contains("nonexistent"));
    assert_eq!(
        err.message(),
        "Workflow 'orphan' depends on non-existent workflow 'nonexistent'"
    );
}

#[test]
fn test_dag_self_dependency_error() {
    let workflows = vec![workflow_with_deps("self-ref", &["self-ref"])];
    let result = WorkflowDAG::build(workflows);

    assert!(result.is_err());
    assert!(matches!(result, Err(DAGError::CyclicDependency)));
}

#[test]
fn test_dag_simple_cycle_error() {
    let workflows = vec![
        workflow_with_deps("a", &["b"]),
        workflow_with_deps("b", &["a"]),
    ];
    let result = WorkflowDAG::build(workflows);

    assert!(result.is_err());
    assert!(result.unwrap_err().message().contains("Cyclic"));
}

#[test]
fn test_dag_three_node_cycle_error() {
    let workflows = vec![
        workflow_with_deps("a", &["c"]),
        workflow_with_deps("b", &["a"]),
        workflow_with_deps("c", &["b"]),
    ];
    let result = WorkflowDAG::build(workflows);

    assert!(result.is_err());
    assert!(result.unwrap_err().message().contains("Cyclic"));
}

#[test]
fn test_dag_duplicate_name_error() {
    let workflows = vec![simple_workflow("duplicate"), simple_workflow("duplicate")];
    let result = WorkflowDAG::build(workflows);

    assert!(result.is_err());
    let err = result.unwrap_err();
    assert!(err.message().contains("Duplicate"));
    assert_eq!(err.message(), "Duplicate workflow name: duplicate");
}

#[test]
fn test_dag_get_workflow() {
    let workflows = vec![simple_workflow("my-workflow")];
    let dag = WorkflowDAG::build(workflows).unwrap();

    assert!(dag.get_workflow("my-workflow").is_some());
    assert!(dag.get_workflow("nonexistent").is_none());
}

#[test]
fn test_dag_get_node() {
    let workflows = vec![simple_workflow("a"), workflow_with_always("b", &["a"])];
    let dag = WorkflowDAG::build(workflows).unwrap();

    let node_a = dag.get_node("a").unwrap();
    assert!(node_a.dependencies.is_empty());
    assert!(!node_a.always);

    let node_b = dag.get_node("b").unwrap();
    assert_eq!(node_b.dependencies, vec!["a"]);
    assert!(node_b.always);
}

#[test]
fn test_dag_workflow_names() {
    let workflows = vec![simple_workflow("x"), simple_workflow("y"), simple_workflow("z")];
    let dag = WorkflowDAG::build(workflows).unwrap();

    let names = dag.workflow_names();
    assert_eq!(names.len(), 3);
    assert!(names.contains(&"x"));
    assert!(names.contains(&"y"));
    assert!(names.contains(&"z"));
}

#[test]
fn test_dag_is_empty() {
    let workflows: Vec<Workflow> = vec![];
    assert!(workflows.is_empty());

    let dag = WorkflowDAG::build(workflows).unwrap();
    assert!(dag.is_empty());
    assert_eq!(dag.len(), 0);
    assert!(dag.execution_levels().is_empty());
}

#[test]
fn levels_are_sorted_by_name_whatever_the_order_given() {
    let one = WorkflowDAG::build(vec![
        simple_workflow("zeta"),
        simple_workflow("alpha"),
        workflow_with_deps("mid", &["zeta", "alpha"]),
        simple_workflow("Beta"),
    ])
    .unwrap();
    let two = WorkflowDAG::build(vec![
        workflow_with_deps("mid", &["alpha", "zeta"]),
        simple_workflow("Beta"),
        simple_workflow("alpha"),
        simple_workflow("zeta"),
    ])
    .unwrap();

    assert_eq!(one.execution_levels()[0], vec!["Beta", "alpha", "zeta"]);
    assert_eq!(one.execution_levels()[1], vec!["mid"]);
    assert_eq!(one.execution_levels(), two.execution_levels());
}

#[test]
fn duplicate_is_reported_before_missing_and_missing_before_cycle() {
    let result = WorkflowDAG::build(vec![
        workflow_with_deps("a", &["ghost"]),
        workflow_with_deps("b", &["b"]),
        simple_workflow("a"),
    ]);
    assert!(matches!(result, Err(DAGError::DuplicateName(name)) if name == "a"));

    let result = WorkflowDAG::build(vec![
        workflow_with_deps("b", &["b"]),
        workflow_with_deps("a", &["b", "ghost", "phantom"]),
    ]);
    match result {
        Err(DAGError::MissingDependency { workflow, dependency }) => {
            assert_eq!(workflow, "a");
            assert_eq!(dependency, "ghost");
        }
        _ => panic!("expected a missing dependency"),
    }
}

#[test]
fn a_dependency_named_twice_counts_once() {
    let dag = WorkflowDAG::build(vec![
        simple_workflow("base"),
        workflow_with_deps("top", &["base", "base"]),
    ])
    .unwrap();
    assert_eq!(dag.execution_levels().len(), 2);
    assert_eq!(dag.execution_levels()[1], vec!["top"]);
}
