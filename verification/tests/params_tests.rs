use testing_actions::context::ExecutionContext;
use testing_actions::error::ExpressionError;
use testing_actions::events::{EventType, RunEvent};
use testing_actions::expressions;
use testing_actions::expressions::{
    evaluate_params, evaluate_params_json, yaml_to_json_with_expressions,
};
use testing_actions::job::{NumberValue, ParamValue};
use testing_actions::json::{same_json, JsonValue};
use testing_actions::mock_clock::Instant;
use testing_actions::namemap::NameMap;
use testing_actions::state_manager::ExecutionContextSnapshot;
use testing_actions::text::{
    decimal, parse_i64, parse_u64, signed_decimal, split_chars, str_lt, to_chars, trim_chars,
};

fn ctx() -> ExecutionContext {
    let mut ctx = ExecutionContext::with_run_id("run-1".to_string());
    ctx.set_env("HOST", "example.com".to_string());
    ctx.set_secret("TOKEN", "s3cret".to_string());
    ctx.set_output("login", "id", "17".to_string());
    ctx
}

fn text(s: &str) -> ParamValue {
    ParamValue::Text(s.to_string())
}

#[test]
fn parameters_as_strings() {
    let mut with: NameMap<ParamValue> = NameMap::new();
    with.insert("url".to_string(), text("https://${{ env.HOST }}/users/${{ steps.login.outputs.id }}"));
    with.insert("retries".to_string(), ParamValue::Number(NumberValue::Int(-3)));
    with.insert("limit".to_string(), ParamValue::Number(NumberValue::UInt(10)));
    with.insert("ratio".to_string(), ParamValue::Number(NumberValue::Real("0.5".to_string())));
    with.insert("endless".to_string(), ParamValue::Number(NumberValue::NonFinite(".inf".to_string())));
    with.insert("verbose".to_string(), ParamValue::Bool(true));
    with.insert("quiet".to_string(), ParamValue::Bool(false));
    with.insert("nothing".to_string(), ParamValue::Null);
    with.insert(
        "tags".to_string(),
        ParamValue::Sequence(vec![text("a"), text("${{ env.HOST }}")], "- a\n- ${{ env.HOST }}\n".to_string()),
    );
    with.insert(
        "user".to_string(),
        ParamValue::Mapping(vec![("name".to_string(), text("Ann"))], "name: Ann\n".to_string()),
    );

    let params = evaluate_params(&with, &ctx()).unwrap();
    assert_eq!(params.get("url"), Some(&"https://example.com/users/17".to_string()));
    assert_eq!(params.get("retries"), Some(&"-3".to_string()));
    assert_eq!(params.get("limit"), Some(&"10".to_string()));
    assert_eq!(params.get("ratio"), Some(&"0.5".to_string()));
    assert_eq!(params.get("endless"), Some(&".inf".to_string()));
    assert_eq!(params.get("verbose"), Some(&"true".to_string()));
    assert_eq!(params.get("quiet"), Some(&"false".to_string()));
    assert_eq!(params.get("nothing"), Some(&"".to_string()));
    // what is inside a sequence is not evaluated in this mode
    assert_eq!(params.get("tags"), Some(&"- a\n- ${{ env.HOST }}\n".to_string()));
    assert_eq!(params.get("user"), Some(&"name: Ann\n".to_string()));
    assert_eq!(params.len(), 10);

    with.insert(
        "tagged".to_string(),
        ParamValue::Tagged(Box::new(text("${{ env.HOST }}")), "!secret ${{ env.HOST }}\n".to_string()),
    );
    let params = evaluate_params(&with, &ctx()).unwrap();
    assert_eq!(params.get("tagged"), Some(&"!secret ${{ env.HOST }}\n".to_string()));

    with.insert("bad".to_string(), text("${{ env.NOPE }}"));
    with.insert("worse".to_string(), text("${{ secrets.NOPE }}"));
    match evaluate_params(&with, &ctx()) {
        Err(ExpressionError::UnknownVariable(what)) => assert_eq!(what, "env.NOPE"),
        other => panic!("unexpected: {:?}", other),
    }
    assert_eq!(expressions::stringify(&text("${{ run.id }}"), &ctx()).unwrap(), "run-1");
    assert!(evaluate_params(&NameMap::new(), &ctx()).unwrap().is_empty());
}

#[test]
fn parameters_as_json_keep_their_shape() {
    let tree = ParamValue::Mapping(
        vec![
            ("email".to_string(), text("ann@${{ env.HOST }}")),
            ("age".to_string(), ParamValue::Number(NumberValue::UInt(30))),
            ("debt".to_string(), ParamValue::Number(NumberValue::Int(-5))),
            ("score".to_string(), ParamValue::Number(NumberValue::Real("1.5".to_string()))),
            ("limit".to_string(), ParamValue::Number(NumberValue::NonFinite(".nan".to_string()))),
            ("admin".to_string(), ParamValue::Bool(false)),
            ("nick".to_string(), ParamValue::Null),
            ("empty".to_string(), ParamValue::Mapping(vec![], "{}\n".to_string())),
            (
                "tags".to_string(),
                ParamValue::Sequence(
                    vec![text("${{ secrets.TOKEN }}"), ParamValue::Sequence(vec![], "[]\n".to_string())],
                    String::new(),
                ),
            ),
        ],
        String::new(),
    );
    let expected = JsonValue::Object(vec![
        ("email".to_string(), JsonValue::Text("ann@example.com".to_string())),
        ("age".to_string(), JsonValue::Number(NumberValue::UInt(30))),
        ("debt".to_string(), JsonValue::Number(NumberValue::Int(-5))),
        ("score".to_string(), JsonValue::Number(NumberValue::Real("1.5".to_string()))),
        ("limit".to_string(), JsonValue::Null),
        ("admin".to_string(), JsonValue::Bool(false)),
        ("nick".to_string(), JsonValue::Null),
        ("empty".to_string(), JsonValue::Object(vec![])),
        (
            "tags".to_string(),
            JsonValue::Array(vec![JsonValue::Text("s3cret".to_string()), JsonValue::Array(vec![])]),
        ),
    ]);
    // a value under a tag is converted without its tag
    let tagged = ParamValue::Tagged(
        Box::new(ParamValue::Sequence(vec![text("${{ env.HOST }}")], String::new())),
        "!list\n- x\n".to_string(),
    );
    assert!(same_json(
        &yaml_to_json_with_expressions(&tagged, &ctx()).unwrap(),
        &JsonValue::Array(vec![JsonValue::Text("example.com".to_string())])
    ));
    let converted = yaml_to_json_with_expressions(&tree, &ctx()).unwrap();
    assert!(same_json(&converted, &expected));
    assert!(!same_json(&converted, &JsonValue::Object(vec![])));

    let mut with: NameMap<ParamValue> = NameMap::new();
    with.insert("args".to_string(), tree);
    with.insert("function".to_string(), text("createUser"));
    let json = evaluate_params_json(&with, &ctx()).unwrap();
    assert_eq!(json.len(), 2);
    assert!(same_json(json.get("args").unwrap(), &expected));
    assert_eq!(json.get("function").unwrap().as_str(), Some(&"createUser".to_string()));

    with.insert(
        "deep".to_string(),
        ParamValue::Sequence(
            vec![ParamValue::Mapping(
                vec![
                    ("ok".to_string(), text("${{ env.HOST }}")),
                    ("bad".to_string(), text("${{ jobs.x.outputs.y }}")),
                    ("never".to_string(), text("${{ env.NEVER }}")),
                ],
                String::new(),
            )],
            String::new(),
        ),
    );
    match evaluate_params_json(&with, &ctx()) {
        Err(ExpressionError::UnknownVariable(what)) => assert_eq!(what, "jobs.x.outputs.y"),
        other => panic!("unexpected: {:?}", other),
    }
}

#[test]
fn json_values_hold_the_same_or_not() {
    let one = JsonValue::Number(NumberValue::UInt(1));
    assert!(same_json(&one, &one.clone()));
    assert!(!same_json(&one, &JsonValue::Number(NumberValue::Int(1))));
    assert!(!same_json(&one, &JsonValue::Number(NumberValue::Real("1".to_string()))));
    assert!(!same_json(&one, &JsonValue::Text("1".to_string())));
    assert!(!same_json(&JsonValue::Null, &JsonValue::Bool(false)));
    let a = JsonValue::Array(vec![one.clone(), JsonValue::Null]);
    assert!(same_json(&a, &a.clone()));
    assert!(!same_json(&a, &JsonValue::Array(vec![JsonValue::Null, one.clone()])));
    assert!(!same_json(&a, &JsonValue::Array(vec![one.clone()])));
    let o = JsonValue::Object(vec![("k".to_string(), a.clone())]);
    assert!(same_json(&o, &o.clone()));
    assert!(!same_json(&o, &JsonValue::Object(vec![("K".to_string(), a.clone())])));
    assert_eq!(o.get("k").unwrap().as_array().unwrap().len(), 2);
    assert!(o.get("missing").is_none());
    assert!(a.get("k").is_none());
    assert_eq!(JsonValue::Bool(true).as_bool(), Some(true));
    assert_eq!(one.as_bool(), None);
    assert_eq!(JsonValue::Number(NumberValue::Int(7)).as_u64(), Some(7));
    assert_eq!(JsonValue::Number(NumberValue::Int(-7)).as_u64(), None);
}

#[test]
fn what_leaves_the_engine_holds_no_secret() {
    let mut context = ctx();
    context.set_secret("PASSWORD", "hunter2".to_string());
    context.set_job_output("build", "artifact", "a.zip".to_string());
    let snapshot = ExecutionContextSnapshot::from_context(&context);
    assert_eq!(snapshot.run_id, "run-1");
    assert_eq!(snapshot.env.get("HOST"), Some(&"example.com".to_string()));
    assert_eq!(snapshot.secret_names, vec!["TOKEN", "PASSWORD"]);
    assert_eq!(
        snapshot.step_outputs.get("login").unwrap().get("id"),
        Some(&"17".to_string())
    );
    assert_eq!(
        snapshot.job_outputs.get("build").unwrap().get("artifact"),
        Some(&"a.zip".to_string())
    );
    let shown = format!("{:?}", snapshot);
    assert!(!shown.contains("hunter2"));
    assert!(!shown.contains("s3cret"));
}

#[test]
fn events() {
    let at = Instant::new(1_700_000_000, 5).unwrap();
    let e = RunEvent::run_started("r", at);
    assert_eq!(e.event_type, EventType::RunStarted);
    assert_eq!(e.run_id, "r");
    assert_eq!(e.timestamp, at);
    assert!(e.workflow_name.is_none() && e.success.is_none() && e.reason.is_none());

    let e = RunEvent::run_completed("r", false, at);
    assert_eq!(e.event_type, EventType::RunCompleted);
    assert_eq!(e.success, Some(false));

    let e = RunEvent::workflow_started("r", "w", at);
    assert_eq!(e.event_type, EventType::WorkflowStarted);
    assert_eq!(e.workflow_name, Some("w".to_string()));
    assert!(e.job_name.is_none());

    let e = RunEvent::workflow_completed("r", "w", false, Some("boom".to_string()), at);
    assert_eq!(e.event_type, EventType::WorkflowCompleted);
    assert_eq!(e.success, Some(false));
    assert_eq!(e.error, Some("boom".to_string()));

    let e = RunEvent::workflow_skipped("r", "w", "dependency failed", at);
    assert_eq!(e.event_type, EventType::WorkflowSkipped);
    assert_eq!(e.reason, Some("dependency failed".to_string()));
    assert!(e.success.is_none());

    let e = RunEvent::job_started("r", "w", "j", at);
    assert_eq!(e.event_type, EventType::JobStarted);
    assert_eq!(e.job_name, Some("j".to_string()));

    let e = RunEvent::job_completed("r", "w", "j", true, at);
    assert_eq!(e.event_type, EventType::JobCompleted);
    assert_eq!(e.success, Some(true));

    let e = RunEvent::step_started("r", "w", "j", 2, "Open page", at);
    assert_eq!(e.event_type, EventType::StepStarted);
    assert_eq!(e.step_index, Some(2));
    assert_eq!(e.step_name, Some("Open page".to_string()));
    assert!(e.success.is_none());

    let e = RunEvent::step_completed("r", "w", "j", 2, "Open page", true, None, at);
    assert_eq!(e.event_type, EventType::StepCompleted);
    assert_eq!(e.workflow_name, Some("w".to_string()));
    assert_eq!(e.job_name, Some("j".to_string()));
    assert_eq!(e.step_index, Some(2));
    assert_eq!(e.success, Some(true));
    assert!(e.error.is_none());
}

#[test]
fn texts_and_numbers() {
    assert_eq!(decimal(0), "0");
    assert_eq!(decimal(u64::MAX), "18446744073709551615");
    assert_eq!(signed_decimal(i64::MIN), "-9223372036854775808");
    assert_eq!(signed_decimal(-1), "-1");
    assert_eq!(signed_decimal(i64::MAX), "9223372036854775807");

    let parse = |s: &str| parse_i64(&to_chars(s));
    assert_eq!(parse("0"), Some(0));
    assert_eq!(parse("-0"), Some(0));
    assert_eq!(parse("+12"), Some(12));
    assert_eq!(parse("007"), Some(7));
    assert_eq!(parse("9223372036854775807"), Some(i64::MAX));
    assert_eq!(parse("-9223372036854775808"), Some(i64::MIN));
    assert_eq!(parse("9223372036854775808"), None);
    assert_eq!(parse("-9223372036854775809"), None);
    for bad in ["", "-", "+", "--1", "+-1", "1 ", " 1", "1_000", "0x10", "１"] {
        assert_eq!(parse(bad), None, "{:?}", bad);
    }
    assert_eq!(parse_u64(&to_chars("-0")), None);
    assert_eq!(parse_u64(&to_chars("+0")), Some(0));

    let pieces = |s: &str| -> Vec<String> {
        split_chars(&to_chars(s), '.').iter().map(|p| p.iter().collect()).collect()
    };
    assert_eq!(pieces("a.b.c"), vec!["a", "b", "c"]);
    assert_eq!(pieces(""), vec![""]);
    assert_eq!(pieces("."), vec!["", ""]);
    assert_eq!(pieces("..a."), vec!["", "", "a", ""]);
    assert_eq!(pieces("none"), vec!["none"]);

    let trimmed: String = trim_chars(&to_chars(" \t\u{a0}x y\u{3000}\n")).iter().collect();
    assert_eq!(trimmed, "x y");
    let blank: String = trim_chars(&to_chars(" \r\n")).iter().collect();
    assert_eq!(blank, "");

    assert!(str_lt("a", "b"));
    assert!(str_lt("", "a"));
    assert!(str_lt("Z", "a"));
    assert!(str_lt("api", "api-tests"));
    assert!(str_lt("a", "é"));
    assert!(!str_lt("b", "a"));
    assert!(!str_lt("a", "a"));
    for (a, b) in [("x", "y"), ("ab", "b"), ("a-1", "a_1"), ("ü", "z"), ("", ""), ("10", "9")] {
        assert_eq!(str_lt(a, b), a < b, "{:?} {:?}", a, b);
    }
}

#[test]
fn the_name_map_keeps_its_order() {
    let mut map: NameMap<u32> = NameMap::new();
    assert!(map.is_empty());
    assert_eq!(map.insert("b".to_string(), 1), None);
    assert_eq!(map.insert("a".to_string(), 2), None);
    assert_eq!(map.insert("b".to_string(), 3), Some(1));
    assert_eq!(map.len(), 2);
    assert_eq!(map.name_at(0), "b");
    assert_eq!(*map.value_at(0), 3);
    assert_eq!(map.name_at(1), "a");
    assert_eq!(map.position("a"), Some(1));
    assert_eq!(map.position("A"), None);
    assert!(map.contains_key("a"));
    assert_eq!(map.remove("b"), Some(3));
    assert_eq!(map.remove("b"), None);
    assert_eq!(map.name_at(0), "a");
    let copy = map.clone();
    map.clear();
    assert!(map.is_empty());
    assert_eq!(copy.get("a"), Some(&2));
    assert_eq!(copy.into_entries(), vec![("a".to_string(), 2)]);
}
