//! What each action asks for: the operation of a bridge, a sleep, a shell
//! command or an HTTP request, made from the parameters of the step; and
//! what the reply makes of the step.

use vstd::prelude::*;
use crate::action::{ActionCategory, ParsedAction};
use crate::actions::playwright::{
    execute_browser_action, execute_element_action, execute_network_action, execute_page_action,
    execute_wait_action, planned_browser, planned_element, planned_network, planned_page,
    planned_page_assert, planned_page_wait, BrowserCall, BrowserView,
};
use crate::bridge::AssertionResult;
use crate::error::ExecutorError;
use crate::executor::param;
use crate::expressions::as_json;
use crate::json::{entries_view, JsonTree, JsonValue};
use crate::namemap::{as_text, NameMap};
use crate::platform::Platform;
use crate::result::StepResult;
use crate::text::{
    decimal, decimal_text, integer_value, is_space, is_whitespace, is_word, join2, join3,
    parse_u64, signed_decimal, signed_text, texts, to_chars, trim_chars, trim_text,
    from_chars,
};

pub mod playwright;

verus! {

/// A shell command to run.
#[derive(Debug, Clone)]
pub struct BashCommand {
    /// `sh` for a command line, `bash` for a script.
    pub program: String,
    /// The arguments that are known: `-c` and the command line, or the
    /// path of the script.
    pub args: Vec<String>,
    /// More arguments of a script, as the step wrote them: a JSON list of
    /// strings, or words parted by white space.
    pub more_args: Option<String>,
    pub working_dir: Option<String>,
}

/// An HTTP request to make.
#[derive(Debug, Clone)]
pub struct HttpPlan {
    /// The method, or none where the step names it by its action.
    pub method: String,
    pub path: String,
    /// Headers as JSON text, where the step gives any.
    pub headers: Option<String>,
    /// The body as text: JSON where it is JSON, else a string.
    pub body: Option<String>,
    /// The query as JSON text, where the step gives one.
    pub query: Option<String>,
}

/// What a step asks for.
#[derive(Debug, Clone)]
pub enum Plan {
    /// Sleep for so many milliseconds.
    Sleep(u64),
    /// An action on the clock, which the executor carries out.
    Clock(String),
    Bash(BashCommand),
    /// An action in the browser, which the browser bridge carries out.
    Browser(BrowserCall),
    Call { function: String, args: JsonValue },
    /// Call the functions in turn, each on what the one before returned.
    Chain { functions: Vec<String>, initial: JsonValue },
    CtxGet { key: String },
    /// The value is JSON where it reads as JSON, else a string; null
    /// where there is none.
    CtxSet { key: String, value: Option<String> },
    CtxClear { pattern: String },
    MockSet { target: String, value: Option<String> },
    MockClear,
    HookCall { hook: String },
    AssertReturns { function: String, args: JsonValue, expected: JsonValue },
    AssertThrows { function: String, args: JsonValue },
    AssertCtxEquals { key: String, expected: JsonValue },
    AssertCustom { name: String, params: Vec<(String, JsonValue)> },
    Http(HttpPlan),
    /// Nothing is left to do: the step has succeeded.
    Passed,
}

/// What a [`Plan`] holds.
pub enum PlanView {
    Sleep(int),
    Clock(Seq<char>),
    Bash { program: Seq<char>, args: Seq<Seq<char>>, more_args: Option<Seq<char>>, working_dir: Option<
        Seq<char>,
    > },
    Browser(BrowserView),
    Call { function: Seq<char>, args: JsonTree },
    Chain { functions: Seq<Seq<char>>, initial: JsonTree },
    CtxGet { key: Seq<char> },
    CtxSet { key: Seq<char>, value: Option<Seq<char>> },
    CtxClear { pattern: Seq<char> },
    MockSet { target: Seq<char>, value: Option<Seq<char>> },
    MockClear,
    HookCall { hook: Seq<char> },
    AssertReturns { function: Seq<char>, args: JsonTree, expected: JsonTree },
    AssertThrows { function: Seq<char>, args: JsonTree },
    AssertCtxEquals { key: Seq<char>, expected: JsonTree },
    AssertCustom { name: Seq<char>, params: Seq<(Seq<char>, JsonTree)> },
    Http { method: Seq<char>, path: Seq<char>, headers: Option<Seq<char>>, body: Option<
        Seq<char>,
    >, query: Option<Seq<char>> },
    Passed,
}


impl View for Plan {
    type V = PlanView;

    open spec fn view(&self) -> PlanView {
        match self {
            Plan::Sleep(ms) => PlanView::Sleep(*ms as int),
            Plan::Clock(action) => PlanView::Clock(action@),
            Plan::Bash(c) => PlanView::Bash {
                program: c.program@,
                args: texts(c.args@),
                more_args: crate::context::option_text(c.more_args),
                working_dir: crate::context::option_text(c.working_dir),
            },
            Plan::Browser(call) => PlanView::Browser(call@),
            Plan::Call { function, args } => PlanView::Call { function: function@, args: args@ },
            Plan::Chain { functions, initial } => PlanView::Chain {
                functions: texts(functions@),
                initial: initial@,
            },
            Plan::CtxGet { key } => PlanView::CtxGet { key: key@ },
            Plan::CtxSet { key, value } => PlanView::CtxSet {
                key: key@,
                value: crate::context::option_text(*value),
            },
            Plan::CtxClear { pattern } => PlanView::CtxClear { pattern: pattern@ },
            Plan::MockSet { target, value } => PlanView::MockSet {
                target: target@,
                value: crate::context::option_text(*value),
            },
            Plan::MockClear => PlanView::MockClear,
            Plan::HookCall { hook } => PlanView::HookCall { hook: hook@ },
            Plan::AssertReturns { function, args, expected } => PlanView::AssertReturns {
                function: function@,
                args: args@,
                expected: expected@,
            },
            Plan::AssertThrows { function, args } => PlanView::AssertThrows {
                function: function@,
                args: args@,
            },
            Plan::AssertCtxEquals { key, expected } => PlanView::AssertCtxEquals {
                key: key@,
                expected: expected@,
            },
            Plan::AssertCustom { name, params } => PlanView::AssertCustom {
                name: name@,
                params: entries_view(params@),
            },
            Plan::Http(h) => PlanView::Http {
                method: h.method@,
                path: h.path@,
                headers: crate::context::option_text(h.headers),
                body: crate::context::option_text(h.body),
                query: crate::context::option_text(h.query),
            },
            Plan::Passed => PlanView::Passed,
        }
    }
}

/// What is decided for a step: a plan, or the error that the step ends in.
pub enum Planned {
    Plan(PlanView),
    Missing(Seq<char>),
    Invalid(Seq<char>),
    Unknown(Seq<char>),
    Mismatch(Seq<char>),
    Config(Seq<char>),
    Failed(Seq<char>),
    Assertion(Seq<char>),
}

/// Whether a result is what was decided.
pub open spec fn agrees(r: Result<Plan, ExecutorError>, decided: Planned) -> bool {
    match decided {
        Planned::Plan(plan) => r matches Ok(p) && p@ == plan,
        Planned::Missing(m) => r matches Err(ExecutorError::MissingParameter(t)) && t@ == m,
        Planned::Invalid(m) => r matches Err(ExecutorError::InvalidParameter(t)) && t@ == m,
        Planned::Unknown(m) => r matches Err(ExecutorError::UnknownAction(t)) && t@ == m,
        Planned::Mismatch(m) => r matches Err(ExecutorError::PlatformMismatch(t)) && t@ == m,
        Planned::Config(m) => r matches Err(ExecutorError::ConfigError(t)) && t@ == m,
        Planned::Failed(m) => r matches Err(ExecutorError::StepFailed(t)) && t@ == m,
        Planned::Assertion(m) => r matches Err(ExecutorError::AssertionFailed(t)) && t@ == m,
    }
}

/// How a category is named in messages.
pub open spec fn category_name(category: ActionCategory) -> Seq<char> {
    match category {
        ActionCategory::Page => "Page"@,
        ActionCategory::Element => "Element"@,
        ActionCategory::Assert => "Assert"@,
        ActionCategory::Wait => "Wait"@,
        ActionCategory::Browser => "Browser"@,
        ActionCategory::Network => "Network"@,
        ActionCategory::Node => "Node"@,
        ActionCategory::Ctx => "Ctx"@,
        ActionCategory::Mock => "Mock"@,
        ActionCategory::Hook => "Hook"@,
        ActionCategory::Rs => "Rs"@,
        ActionCategory::Py => "Py"@,
        ActionCategory::Java => "Java"@,
        ActionCategory::Go => "Go"@,
        ActionCategory::Web => "Web"@,
        ActionCategory::Fail => "Fail"@,
        ActionCategory::Clock => "Clock"@,
        ActionCategory::Bash => "Bash"@,
    }
}

/// How a category is named in messages.
pub fn name_of_category(category: ActionCategory) -> (name: &'static str)
    ensures
        name@ == category_name(category),
{
    match category {
        ActionCategory::Page => "Page",
        ActionCategory::Element => "Element",
        ActionCategory::Assert => "Assert",
        ActionCategory::Wait => "Wait",
        ActionCategory::Browser => "Browser",
        ActionCategory::Network => "Network",
        ActionCategory::Node => "Node",
        ActionCategory::Ctx => "Ctx",
        ActionCategory::Mock => "Mock",
        ActionCategory::Hook => "Hook",
        ActionCategory::Rs => "Rs",
        ActionCategory::Py => "Py",
        ActionCategory::Java => "Java",
        ActionCategory::Go => "Go",
        ActionCategory::Web => "Web",
        ActionCategory::Fail => "Fail",
        ActionCategory::Clock => "Clock",
        ActionCategory::Bash => "Bash",
    }
}

/// The first of the parameters `ms`, `timeout` and `duration` that is
/// there.
pub open spec fn wait_param(params: Map<Seq<char>, Seq<char>>) -> Option<Seq<char>> {
    if params.contains_key("ms"@) {
        Some(params["ms"@])
    } else if params.contains_key("timeout"@) {
        Some(params["timeout"@])
    } else if params.contains_key("duration"@) {
        Some(params["duration"@])
    } else {
        None
    }
}

/// The natural number that `s` writes, where it fits 64 bits.
pub open spec fn natural(s: Seq<char>) -> Option<int> {
    match integer_value(s) {
        Some(x) => if 0 <= x <= u64::MAX && !(s.len() > 0 && s[0] == '-') {
            Some(x)
        } else {
            None
        },
        None => None,
    }
}

/// What a wait asks for: `ms`, `timeout` and `delay` sleep for the
/// milliseconds of the parameter `ms`, `timeout` or `duration`.
pub open spec fn planned_wait(action: Seq<char>, params: Map<Seq<char>, Seq<char>>) -> Planned {
    if action == "timeout"@ || action == "delay"@ || action == "ms"@ {
        match wait_param(params) {
            None => Planned::Missing("ms or duration"@),
            Some(text) => match natural(text) {
                Some(ms) => Planned::Plan(PlanView::Sleep(ms)),
                None => Planned::Invalid("ms/duration must be a number"@),
            },
        }
    } else {
        Planned::Unknown("wait/"@ + action)
    }
}

/// What a wait asks for.
pub fn execute_wait(action: &str, params: &NameMap<String>) -> (r: Result<Plan, ExecutorError>)
    ensures
        agrees(r, planned_wait(action@, as_text(params@))),
{
    let a = to_chars(action);
    if is_word(&a, "timeout") || is_word(&a, "delay") || is_word(&a, "ms") {
        let text = match params.get("ms") {
            Some(t) => t,
            None => match params.get("timeout") {
                Some(t) => t,
                None => match params.get("duration") {
                    Some(t) => t,
                    None => {
                        return Err(ExecutorError::MissingParameter("ms or duration".to_string()));
                    },
                },
            },
        };
        let digits = to_chars(text.as_str());
        match parse_u64(&digits) {
            Some(ms) => Ok(Plan::Sleep(ms)),
            None => Err(
                ExecutorError::InvalidParameter("ms/duration must be a number".to_string()),
            ),
        }
    } else {
        Err(ExecutorError::UnknownAction(join2("wait/", action)))
    }
}

/// What a shell action asks for: `exec` runs the parameter `command`
/// through `sh -c`, or else the parameter `script` through `bash`, with
/// the parameter `args` as more arguments; in the directory of the
/// parameter `working_dir`, where there is one.
pub open spec fn planned_bash(action: Seq<char>, params: Map<Seq<char>, Seq<char>>) -> Planned {
    if action != "exec"@ {
        Planned::Unknown("Unknown bash action: "@ + action)
    } else if params.contains_key("command"@) {
        Planned::Plan(
            PlanView::Bash {
                program: "sh"@,
                args: seq!["-c"@, params["command"@]],
                more_args: None,
                working_dir: param(params, "working_dir"@),
            },
        )
    } else if params.contains_key("script"@) {
        Planned::Plan(
            PlanView::Bash {
                program: "bash"@,
                args: seq![params["script"@]],
                more_args: param(params, "args"@),
                working_dir: param(params, "working_dir"@),
            },
        )
    } else {
        Planned::Config("bash/exec requires either 'command' or 'script' parameter"@)
    }
}

/// A copy of the parameter `name`, if it is there.
fn copy_param(params: &NameMap<String>, name: &str) -> (r: Option<String>)
    ensures
        crate::context::option_text(r) == param(as_text(params@), name@),
{
    match params.get(name) {
        Some(v) => Some(v.clone()),
        None => None,
    }
}

/// What a shell action asks for.
pub fn execute_bash_action(action: &str, params: &NameMap<String>) -> (r: Result<
    Plan,
    ExecutorError,
>)
    ensures
        agrees(r, planned_bash(action@, as_text(params@))),
{
    let a = to_chars(action);
    if !is_word(&a, "exec") {
        return Err(ExecutorError::UnknownAction(join2("Unknown bash action: ", action)));
    }
    let working_dir = copy_param(params, "working_dir");
    if let Some(command) = params.get("command") {
        let mut args: Vec<String> = Vec::new();
        args.push("-c".to_string());
        args.push(command.clone());
        assert(texts(args@) =~= seq!["-c"@, command@]);
        return Ok(
            Plan::Bash(BashCommand { program: "sh".to_string(), args, more_args: None, working_dir }),
        );
    }
    if let Some(script) = params.get("script") {
        let mut args: Vec<String> = Vec::new();
        args.push(script.clone());
        assert(texts(args@) =~= seq![script@]);
        let more_args = copy_param(params, "args");
        return Ok(
            Plan::Bash(BashCommand { program: "bash".to_string(), args, more_args, working_dir }),
        );
    }
    Err(
        ExecutorError::ConfigError(
            "bash/exec requires either 'command' or 'script' parameter".to_string(),
        ),
    )
}

/// The words of `s`: what stands between white space, nothing empty.
/// Read from the left: white space ends the word that is being read.
pub open spec fn words(s: Seq<char>) -> Seq<Seq<char>> {
    let state = words_scan(s);
    if state.1.len() > 0 {
        state.0.push(state.1)
    } else {
        state.0
    }
}

/// The words that are complete after `s`, and the word being read.
pub open spec fn words_scan(s: Seq<char>) -> (Seq<Seq<char>>, Seq<char>)
    decreases s.len(),
{
    if s.len() == 0 {
        (Seq::empty(), Seq::empty())
    } else {
        let before = words_scan(s.drop_last());
        if is_space(s.last()) {
            if before.1.len() > 0 {
                (before.0.push(before.1), Seq::empty())
            } else {
                before
            }
        } else {
            (before.0, before.1.push(s.last()))
        }
    }
}

/// The words of `text`.
pub fn split_words(text: &str) -> (r: Vec<String>)
    ensures
        texts(r@) == words(text@),
{
    let v = to_chars(text);
    let mut done: Vec<String> = Vec::new();
    let mut word: Vec<char> = Vec::new();
    let mut i: usize = 0;
    assert(v@.take(0) =~= Seq::<char>::empty());
    assert(texts(done@) =~= Seq::<Seq<char>>::empty());
    while i < v.len()
        invariant
            i <= v.len(),
            words_scan(v@.take(i as int)) == (texts(done@), word@),
        decreases v.len() - i,
    {
        proof {
            let part = v@.take(i + 1);
            assert(part.drop_last() == v@.take(i as int));
            assert(part.last() == v[i as int]);
        }
        if is_whitespace(v[i]) {
            if word.len() > 0 {
                let ghost before = texts(done@);
                done.push(from_chars(&word));
                assert(texts(done@) =~= before.push(word@));
                word = Vec::new();
            }
        } else {
            word.push(v[i]);
        }
        i = i + 1;
    }
    assert(v@.take(v.len() as int) == v@);
    if word.len() > 0 {
        let ghost before = texts(done@);
        done.push(from_chars(&word));
        assert(texts(done@) =~= before.push(word@));
    }
    done
}

/// The list of strings that `text` is as JSON, or none where it is no
/// JSON or JSON of another shape.
pub uninterp spec fn json_words(text: Seq<char>) -> Option<Seq<Seq<char>>>;

/// `serde_json::from_str` for a `Vec<String>`: the list that the text
/// is as JSON, or none where the reading fails. What comes back depends
/// on the text alone.
#[verifier::external_body]
fn read_words(text: &str) -> (r: Option<Vec<String>>)
    ensures
        json_words(text@) == match r {
            Some(list) => Some(texts(list@)),
            None => None,
        },
{
    serde_json::from_str::<Vec<String>>(text).ok()
}

/// The further arguments of a script, where `text` was read as JSON
/// with the outcome `parsed`: the list that it is, or else the words of
/// `text`.
pub open spec fn arguments(text: Seq<char>, parsed: Option<Seq<Seq<char>>>) -> Seq<Seq<char>> {
    match parsed {
        Some(list) => list,
        None => words(text),
    }
}

/// The further arguments of a script, where `text` was read as JSON
/// with the outcome `parsed`.
pub fn arguments_of(text: &str, parsed: Option<Vec<String>>) -> (r: Vec<String>)
    ensures
        texts(r@) == arguments(
            text@,
            match parsed {
                Some(list) => Some(texts(list@)),
                None => None,
            },
        ),
{
    match parsed {
        Some(list) => list,
        None => split_words(text),
    }
}

/// The further arguments of a script: the list of strings that `text`
/// is as JSON, where it is one; else the words of `text`.
pub fn script_arguments(text: &str) -> (r: Vec<String>)
    ensures
        texts(r@) == arguments(text@, json_words(text@)),
{
    let parsed = read_words(text);
    arguments_of(text, parsed)
}

/// The value that `text` stands for, where `parsed` is what it reads as
/// as JSON: that, or else the text itself as a string.
pub fn json_or_string(text: String, parsed: Option<JsonValue>) -> (v: JsonValue)
    ensures
        v@ == match parsed {
            Some(value) => value@,
            None => JsonTree::Text(text@),
        },
{
    match parsed {
        Some(value) => value,
        None => JsonValue::Text(text),
    }
}

/// The value that a parameter stands for which may be missing: null
/// where it is; else the JSON that it reads as, which `parsed` holds,
/// or the text itself as a string.
pub fn value_or_null(text: Option<String>, parsed: Option<JsonValue>) -> (v: JsonValue)
    ensures
        v@ == match text {
            None => JsonTree::Null,
            Some(t) => match parsed {
                Some(value) => value@,
                None => JsonTree::Text(t@),
            },
        },
{
    match text {
        None => JsonValue::Null,
        Some(t) => json_or_string(t, parsed),
    }
}

/// The strings that a parameter stands for which may be missing: none
/// where it is; else the strings that it reads as as JSON, which
/// `parsed` holds, or no strings where it reads as none.
pub fn strings_of(text: &Option<String>, parsed: Option<NameMap<String>>) -> (r: Option<
    NameMap<String>,
>)
    ensures
        match r {
            None => text is None,
            Some(strings) => text is Some && as_text(strings@) == match parsed {
                Some(p) => as_text(p@),
                None => Map::empty(),
            },
        },
{
    match text {
        None => None,
        Some(_) => match parsed {
            Some(p) => Some(p),
            None => {
                let none: NameMap<String> = NameMap::new();
                assert(as_text(none@) =~= Map::<Seq<char>, Seq<char>>::empty());
                Some(none)
            },
        },
    }
}

/// The request that `plan` describes, where `headers`, `body` and
/// `query` are what its three texts read as as JSON. Headers and a
/// query that do not read as strings count as none given; a body that
/// does not read as JSON is sent as a string.
pub fn web_request_of(
    plan: HttpPlan,
    headers: Option<NameMap<String>>,
    body: Option<JsonValue>,
    query: Option<NameMap<String>>,
) -> (r: crate::web::WebRequest)
    ensures
        r.method == plan.method,
        r.path == plan.path,
        match r.headers {
            None => plan.headers is None,
            Some(strings) => plan.headers is Some && as_text(strings@) == match headers {
                Some(p) => as_text(p@),
                None => Map::empty(),
            },
        },
        match r.query {
            None => plan.query is None,
            Some(strings) => plan.query is Some && as_text(strings@) == match query {
                Some(p) => as_text(p@),
                None => Map::empty(),
            },
        },
        match plan.body {
            None => r.body is None,
            Some(text) => r.body matches Some(value) && value@ == match body {
                Some(b) => b@,
                None => JsonTree::Text(text@),
            },
        },
{
    let headers = strings_of(&plan.headers, headers);
    let query = strings_of(&plan.query, query);
    let body = match plan.body {
        None => None,
        Some(text) => Some(json_or_string(text, body)),
    };
    crate::web::WebRequest { method: plan.method, path: plan.path, headers, body, query }
}

/// What a shell command that has ended makes of the step. The outputs are
/// `stdout` and `stderr`, each without white space at its ends, and
/// `exit_code`, which is -1 where the command was ended by a signal. A
/// command that did not exit with 0 fails the step, with what it wrote to
/// `stderr` as the error, or with its exit code where it wrote nothing.
pub fn bash_result(exit_code: Option<i32>, stdout: &str, stderr: &str) -> (r: Result<
    StepResult,
    ExecutorError,
>)
    ensures
        match r {
            Ok(result) => exit_code == Some(0i32) && result.success && result.error is None
                && result.response is None && as_text(result.outputs@) == Map::<
                Seq<char>,
                Seq<char>,
            >::empty().insert("stdout"@, trim_text(stdout@)).insert(
                "stderr"@,
                trim_text(stderr@),
            ).insert("exit_code"@, "0"@),
            Err(e) => exit_code != Some(0i32) && (e matches ExecutorError::StepFailed(m) && m@
                == if stderr@.len() == 0 {
                "Command exited with code "@ + signed_text(
                    match exit_code {
                        Some(code) => code as int,
                        None => -1,
                    },
                )
            } else {
                trim_text(stderr@)
            }),
        },
{
    let code: i32 = match exit_code {
        Some(c) => c,
        None => -1,
    };
    let out = from_chars(&trim_chars(&to_chars(stdout)));
    let err = from_chars(&trim_chars(&to_chars(stderr)));
    if matches!(exit_code, Some(0)) {
        let mut outputs: NameMap<String> = NameMap::new();
        let ghost none = Map::<Seq<char>, Seq<char>>::empty();
        assert(as_text(outputs@) =~= none);
        outputs.insert("stdout".to_string(), out);
        let ghost one = none.insert("stdout"@, trim_text(stdout@));
        assert(as_text(outputs@) =~= one);
        outputs.insert("stderr".to_string(), err);
        let ghost two = one.insert("stderr"@, trim_text(stderr@));
        assert(as_text(outputs@) =~= two);
        outputs.insert("exit_code".to_string(), signed_decimal(0));
        proof {
            reveal_strlit("0");
            assert(signed_text(0) =~= "0"@) by {
                reveal_with_fuel(decimal_text, 2);
            }
            assert(as_text(outputs@) =~= two.insert("exit_code"@, "0"@));
        }
        Ok(StepResult { success: true, outputs, error: None, response: None })
    } else {
        let message = if stderr.unicode_len() == 0 {
            let shown = signed_decimal(code as i64);
            join2("Command exited with code ", shown.as_str())
        } else {
            err
        };
        Err(ExecutorError::StepFailed(message))
    }
}

/// What an action that works on every platform asks for, where no
/// platform stands behind it: a wait sleeps; `fail` fails the step with
/// the parameter `message`; the clock is left to the executor; the shell
/// runs a command. An assertion needs a platform.
pub open spec fn planned_agnostic(
    category: ActionCategory,
    action: Seq<char>,
    params: Map<Seq<char>, Seq<char>>,
) -> Planned {
    match category {
        ActionCategory::Wait => planned_wait(action, params),
        ActionCategory::Assert => Planned::Config("Assert actions require a platform context"@),
        ActionCategory::Fail => Planned::Failed(
            match param(params, "message"@) {
                Some(message) => message,
                None => "Intentional failure"@,
            },
        ),
        ActionCategory::Clock => Planned::Plan(PlanView::Clock(action)),
        ActionCategory::Bash => planned_bash(action, params),
        _ => Planned::Mismatch(
            "Action category "@ + category_name(category) + " is not platform-agnostic"@,
        ),
    }
}

/// What an action that works on every platform asks for.
pub fn execute_platform_agnostic_action(action: &ParsedAction, params: &NameMap<String>) -> (r:
    Result<Plan, ExecutorError>)
    ensures
        agrees(r, planned_agnostic(action.category, action.action@, as_text(params@))),
{
    match action.category {
        ActionCategory::Wait => execute_wait(action.action.as_str(), params),
        ActionCategory::Assert => Err(
            ExecutorError::ConfigError("Assert actions require a platform context".to_string()),
        ),
        ActionCategory::Fail => {
            let message = match params.get("message") {
                Some(m) => m.clone(),
                None => "Intentional failure".to_string(),
            };
            Err(ExecutorError::StepFailed(message))
        },
        ActionCategory::Clock => Ok(Plan::Clock(action.action.clone())),
        ActionCategory::Bash => execute_bash_action(action.action.as_str(), params),
        _ => Err(
            ExecutorError::PlatformMismatch(
                join3(
                    "Action category ",
                    name_of_category(action.category),
                    " is not platform-agnostic",
                ),
            ),
        ),
    }
}

/// The JSON parameter `name`, or null where it is not there.
pub open spec fn json_or_null(json: Map<Seq<char>, JsonTree>, name: Seq<char>) -> JsonTree {
    if json.contains_key(name) {
        json[name]
    } else {
        JsonTree::Null
    }
}

/// The JSON parameter `name`, or null where it is not there.
fn json_param(json: &NameMap<JsonValue>, name: &str) -> (v: JsonValue)
    ensures
        v@ == json_or_null(as_json(json@), name@),
{
    match json.get(name) {
        Some(v) => v.clone(),
        None => JsonValue::Null,
    }
}

/// The strings among the first `n` of `items`, in order.
pub open spec fn strings_among(items: Seq<JsonTree>, n: int) -> Seq<Seq<char>>
    decreases n,
{
    if n <= 0 {
        Seq::empty()
    } else {
        match items[n - 1] {
            JsonTree::Text(t) => strings_among(items, n - 1).push(t),
            _ => strings_among(items, n - 1),
        }
    }
}

/// The functions of a chain: the strings of the array that the JSON
/// parameter `functions` is; none where it is no array.
pub open spec fn chain_functions(json: Map<Seq<char>, JsonTree>) -> Seq<Seq<char>> {
    match param_json(json, "functions"@) {
        Some(JsonTree::Array(items)) => strings_among(items, items.len() as int),
        _ => Seq::empty(),
    }
}

/// The JSON parameter `name`, if it is there.
pub open spec fn param_json(json: Map<Seq<char>, JsonTree>, name: Seq<char>) -> Option<JsonTree> {
    if json.contains_key(name) {
        Some(json[name])
    } else {
        None
    }
}

/// The functions of a chain.
fn chain_of(json: &NameMap<JsonValue>) -> (r: Vec<String>)
    ensures
        texts(r@) == chain_functions(as_json(json@)),
{
    let mut functions: Vec<String> = Vec::new();
    assert(texts(functions@) =~= Seq::<Seq<char>>::empty());
    let items = match json.get("functions") {
        Some(v) => match v.as_array() {
            Some(items) => items,
            None => {
                return functions;
            },
        },
        None => {
            return functions;
        },
    };
    let ghost all = as_json(json@)["functions"@]->Array_0;
    let mut i: usize = 0;
    while i < items.len()
        invariant
            i <= items.len(),
            items.len() == all.len(),
            forall|j: int| 0 <= j < items.len() ==> (#[trigger] items[j])@ == all[j],
            texts(functions@) == strings_among(all, i as int),
        decreases items.len() - i,
    {
        assert(items[i as int]@ == all[i as int]);
        if let Some(name) = items[i].as_str() {
            let ghost before = texts(functions@);
            functions.push(name.clone());
            assert(texts(functions@) =~= before.push(name@));
        }
        i = i + 1;
    }
    functions
}

/// What a call of a function asks for: `call` calls the function that the
/// parameter named `key` names, on the JSON parameter `args`.
pub open spec fn planned_call(
    prefix: Seq<char>,
    key: Seq<char>,
    action: Seq<char>,
    params: Map<Seq<char>, Seq<char>>,
    json: Map<Seq<char>, JsonTree>,
) -> Planned {
    if action == "call"@ {
        match param(params, key) {
            None => Planned::Missing(key),
            Some(function) => Planned::Plan(
                PlanView::Call { function, args: json_or_null(json, "args"@) },
            ),
        }
    } else {
        Planned::Unknown(prefix + action)
    }
}

/// What a call of a function of a registry asks for. `prefix` is the
/// category with its slash, `key` the parameter that names the function.
pub fn execute_call(
    prefix: &str,
    key: &str,
    action: &str,
    params: &NameMap<String>,
    json_params: &NameMap<JsonValue>,
) -> (r: Result<Plan, ExecutorError>)
    ensures
        agrees(r, planned_call(prefix@, key@, action@, as_text(params@), as_json(json_params@))),
{
    let a = to_chars(action);
    if is_word(&a, "call") {
        match params.get(key) {
            None => Err(ExecutorError::MissingParameter(key.to_string())),
            Some(function) => Ok(
                Plan::Call { function: function.clone(), args: json_param(json_params, "args") },
            ),
        }
    } else {
        Err(ExecutorError::UnknownAction(join2(prefix, action)))
    }
}

/// What an action of the category `go` asks for: `call` calls the
/// function that the parameter `function` names.
pub fn execute_go_call(
    action: &str,
    params: &NameMap<String>,
    json_params: &NameMap<JsonValue>,
) -> (r: Result<Plan, ExecutorError>)
    ensures
        agrees(
            r,
            planned_call("go/"@, "function"@, action@, as_text(params@), as_json(json_params@)),
        ),
{
    execute_call("go/", "function", action, params, json_params)
}

/// What an action of the category `java` asks for: `call` calls the
/// method that the parameter `method` names.
pub fn execute_java_call(
    action: &str,
    params: &NameMap<String>,
    json_params: &NameMap<JsonValue>,
) -> (r: Result<Plan, ExecutorError>)
    ensures
        agrees(
            r,
            planned_call("java/"@, "method"@, action@, as_text(params@), as_json(json_params@)),
        ),
{
    execute_call("java/", "method", action, params, json_params)
}

/// What an action of the category `node` asks for: `call` calls a
/// function; `chain` calls the functions of the JSON parameter
/// `functions` in turn, beginning with the JSON parameter `initial`.
pub open spec fn planned_node(
    action: Seq<char>,
    params: Map<Seq<char>, Seq<char>>,
    json: Map<Seq<char>, JsonTree>,
) -> Planned {
    if action == "chain"@ {
        Planned::Plan(
            PlanView::Chain {
                functions: chain_functions(json),
                initial: json_or_null(json, "initial"@),
            },
        )
    } else {
        planned_call("node/"@, "function"@, action, params, json)
    }
}

/// What an action of the category `node` asks for.
pub fn execute_node_action(
    action: &str,
    params: &NameMap<String>,
    json_params: &NameMap<JsonValue>,
) -> (r: Result<Plan, ExecutorError>)
    ensures
        agrees(r, planned_node(action@, as_text(params@), as_json(json_params@))),
{
    let a = to_chars(action);
    if is_word(&a, "chain") {
        Ok(
            Plan::Chain {
                functions: chain_of(json_params),
                initial: json_param(json_params, "initial"),
            },
        )
    } else {
        execute_call("node/", "function", action, params, json_params)
    }
}

/// What an action on the shared context asks for: `get` and `set` take
/// the parameter `key`, `set` the parameter `value` too; `clear` takes
/// the parameter `pattern`, or clears all.
pub open spec fn planned_ctx(action: Seq<char>, params: Map<Seq<char>, Seq<char>>) -> Planned {
    if action == "get"@ {
        match param(params, "key"@) {
            None => Planned::Missing("key"@),
            Some(key) => Planned::Plan(PlanView::CtxGet { key }),
        }
    } else if action == "set"@ {
        match param(params, "key"@) {
            None => Planned::Missing("key"@),
            Some(key) => Planned::Plan(PlanView::CtxSet { key, value: param(params, "value"@) }),
        }
    } else if action == "clear"@ {
        Planned::Plan(
            PlanView::CtxClear {
                pattern: match param(params, "pattern"@) {
                    Some(pattern) => pattern,
                    None => "*"@,
                },
            },
        )
    } else {
        Planned::Unknown("ctx/"@ + action)
    }
}

/// What an action on the shared context asks for.
pub fn execute_ctx_action(action: &str, params: &NameMap<String>) -> (r: Result<Plan, ExecutorError>)
    ensures
        agrees(r, planned_ctx(action@, as_text(params@))),
{
    let a = to_chars(action);
    if is_word(&a, "get") {
        match params.get("key") {
            None => Err(ExecutorError::MissingParameter("key".to_string())),
            Some(key) => Ok(Plan::CtxGet { key: key.clone() }),
        }
    } else if is_word(&a, "set") {
        match params.get("key") {
            None => Err(ExecutorError::MissingParameter("key".to_string())),
            Some(key) => Ok(Plan::CtxSet { key: key.clone(), value: copy_param(params, "value") }),
        }
    } else if is_word(&a, "clear") {
        let pattern = match params.get("pattern") {
            Some(p) => p.clone(),
            None => "*".to_string(),
        };
        Ok(Plan::CtxClear { pattern })
    } else {
        Err(ExecutorError::UnknownAction(join2("ctx/", action)))
    }
}

/// What an action on mocks asks for: `set` takes the parameters `target`
/// and `value`; `clear` takes nothing.
pub open spec fn planned_mock(action: Seq<char>, params: Map<Seq<char>, Seq<char>>) -> Planned {
    if action == "set"@ {
        match param(params, "target"@) {
            None => Planned::Missing("target"@),
            Some(target) => Planned::Plan(
                PlanView::MockSet { target, value: param(params, "value"@) },
            ),
        }
    } else if action == "clear"@ {
        Planned::Plan(PlanView::MockClear)
    } else {
        Planned::Unknown("mock/"@ + action)
    }
}

/// What an action on mocks asks for.
pub fn execute_mock_action(action: &str, params: &NameMap<String>) -> (r: Result<
    Plan,
    ExecutorError,
>)
    ensures
        agrees(r, planned_mock(action@, as_text(params@))),
{
    let a = to_chars(action);
    if is_word(&a, "set") {
        match params.get("target") {
            None => Err(ExecutorError::MissingParameter("target".to_string())),
            Some(target) => Ok(
                Plan::MockSet { target: target.clone(), value: copy_param(params, "value") },
            ),
        }
    } else if is_word(&a, "clear") {
        Ok(Plan::MockClear)
    } else {
        Err(ExecutorError::UnknownAction(join2("mock/", action)))
    }
}

/// What an action on hooks asks for: `call` calls the hook of the
/// parameter `hook`; `before` and `after` call that hook too, or the hook
/// of their own name where the parameter is not there.
pub open spec fn planned_hook(action: Seq<char>, params: Map<Seq<char>, Seq<char>>) -> Planned {
    if action == "call"@ {
        match param(params, "hook"@) {
            None => Planned::Missing("hook"@),
            Some(hook) => Planned::Plan(PlanView::HookCall { hook }),
        }
    } else if action == "before"@ || action == "after"@ {
        Planned::Plan(
            PlanView::HookCall {
                hook: match param(params, "hook"@) {
                    Some(hook) => hook,
                    None => action,
                },
            },
        )
    } else {
        Planned::Unknown("hook/"@ + action)
    }
}

/// What an action on hooks asks for.
pub fn execute_hook_action(action: &str, params: &NameMap<String>) -> (r: Result<
    Plan,
    ExecutorError,
>)
    ensures
        agrees(r, planned_hook(action@, as_text(params@))),
{
    let a = to_chars(action);
    if is_word(&a, "call") {
        match params.get("hook") {
            None => Err(ExecutorError::MissingParameter("hook".to_string())),
            Some(hook) => Ok(Plan::HookCall { hook: hook.clone() }),
        }
    } else if is_word(&a, "before") || is_word(&a, "after") {
        let hook = match params.get("hook") {
            Some(h) => h.clone(),
            None => action.to_string(),
        };
        Ok(Plan::HookCall { hook })
    } else {
        Err(ExecutorError::UnknownAction(join2("hook/", action)))
    }
}

/// The parameters of a custom assertion: the entries of the object that
/// the JSON parameter `params` is; none where it is no object.
pub open spec fn custom_params(json: Map<Seq<char>, JsonTree>) -> Seq<(Seq<char>, JsonTree)> {
    match param_json(json, "params"@) {
        Some(JsonTree::Object(entries)) => entries,
        _ => Seq::empty(),
    }
}

/// What a custom assertion asks for: the assertion that the action names,
/// on the JSON parameter `params`.
pub open spec fn planned_custom(action: Seq<char>, json: Map<Seq<char>, JsonTree>) -> Planned {
    Planned::Plan(PlanView::AssertCustom { name: action, params: custom_params(json) })
}

/// What a custom assertion asks for.
pub fn execute_custom_assertion(action: &str, json_params: &NameMap<JsonValue>) -> (r: Result<
    Plan,
    ExecutorError,
>)
    ensures
        agrees(r, planned_custom(action@, as_json(json_params@))),
{
    let mut params: Vec<(String, JsonValue)> = Vec::new();
    assert(entries_view(params@) =~= Seq::<(Seq<char>, JsonTree)>::empty());
    if let Some(value) = json_params.get("params") {
        if let JsonValue::Object(entries) = value {
            let ghost all = value@->Object_0;
            let mut i: usize = 0;
            while i < entries.len()
                invariant
                    i <= entries.len(),
                    *value == JsonValue::Object(*entries),
                    all == value@->Object_0,
                    params.len() == i,
                    forall|j: int|
                        0 <= j < i ==> (#[trigger] params[j]).0@ == all[j].0 && params[j].1@
                            == all[j].1,
                decreases entries.len() - i,
            {
                assert(all[i as int].0 == entries[i as int].0@);
                assert(all[i as int].1 == entries[i as int].1@);
                params.push((entries[i].0.clone(), entries[i].1.clone()));
                i = i + 1;
            }
            assert(entries_view(params@) =~= all);
        }
    }
    Ok(Plan::AssertCustom { name: action.to_string(), params })
}

/// The string that the JSON parameter `name` is, if it is one.
pub open spec fn json_string(json: Map<Seq<char>, JsonTree>, name: Seq<char>) -> Option<Seq<char>> {
    match param_json(json, name) {
        Some(v) => v.as_text(),
        None => None,
    }
}

/// What an assertion on a registry with its own assertions asks for:
/// `returns` calls the function of the JSON parameter `function` on
/// `args` and holds what it returns against `expected`; `throws` calls
/// it and expects an error; `ctx_equals` holds the value of the shared
/// context under `key` against `value`; any other action is a custom
/// assertion.
pub open spec fn planned_node_assert(action: Seq<char>, json: Map<Seq<char>, JsonTree>) -> Planned {
    if action == "returns"@ {
        match json_string(json, "function"@) {
            None => Planned::Missing("function"@),
            Some(function) => match param_json(json, "expected"@) {
                None => Planned::Missing("expected"@),
                Some(expected) => Planned::Plan(
                    PlanView::AssertReturns {
                        function,
                        args: json_or_null(json, "args"@),
                        expected,
                    },
                ),
            },
        }
    } else if action == "throws"@ {
        match json_string(json, "function"@) {
            None => Planned::Missing("function"@),
            Some(function) => Planned::Plan(
                PlanView::AssertThrows { function, args: json_or_null(json, "args"@) },
            ),
        }
    } else if action == "ctx_equals"@ {
        match json_string(json, "key"@) {
            None => Planned::Missing("key"@),
            Some(key) => match param_json(json, "value"@) {
                None => Planned::Missing("value"@),
                Some(expected) => Planned::Plan(PlanView::AssertCtxEquals { key, expected }),
            },
        }
    } else {
        planned_custom(action, json)
    }
}

/// The string that the JSON parameter `name` is, if it is one.
fn string_param(json: &NameMap<JsonValue>, name: &str) -> (r: Option<String>)
    ensures
        crate::context::option_text(r) == json_string(as_json(json@), name@),
{
    match json.get(name) {
        Some(v) => match v.as_str() {
            Some(t) => Some(t.clone()),
            None => None,
        },
        None => None,
    }
}

/// What an assertion on the Node.js registry asks for.
pub fn execute_assert_action(action: &str, json_params: &NameMap<JsonValue>) -> (r: Result<
    Plan,
    ExecutorError,
>)
    ensures
        agrees(r, planned_node_assert(action@, as_json(json_params@))),
{
    let a = to_chars(action);
    if is_word(&a, "returns") {
        let function = match string_param(json_params, "function") {
            Some(f) => f,
            None => {
                return Err(ExecutorError::MissingParameter("function".to_string()));
            },
        };
        let expected = match json_params.get("expected") {
            Some(e) => e.clone(),
            None => {
                return Err(ExecutorError::MissingParameter("expected".to_string()));
            },
        };
        Ok(Plan::AssertReturns { function, args: json_param(json_params, "args"), expected })
    } else if is_word(&a, "throws") {
        let function = match string_param(json_params, "function") {
            Some(f) => f,
            None => {
                return Err(ExecutorError::MissingParameter("function".to_string()));
            },
        };
        Ok(Plan::AssertThrows { function, args: json_param(json_params, "args") })
    } else if is_word(&a, "ctx_equals") {
        let key = match string_param(json_params, "key") {
            Some(k) => k,
            None => {
                return Err(ExecutorError::MissingParameter("key".to_string()));
            },
        };
        let expected = match json_params.get("value") {
            Some(e) => e.clone(),
            None => {
                return Err(ExecutorError::MissingParameter("value".to_string()));
            },
        };
        Ok(Plan::AssertCtxEquals { key, expected })
    } else {
        execute_custom_assertion(action, json_params)
    }
}

/// The method of an action of the category `web`, where the action
/// names one.
pub open spec fn web_method(action: Seq<char>) -> Option<Seq<char>> {
    if action == "get"@ {
        Some("GET"@)
    } else if action == "post"@ {
        Some("POST"@)
    } else if action == "put"@ {
        Some("PUT"@)
    } else if action == "patch"@ {
        Some("PATCH"@)
    } else if action == "delete"@ {
        Some("DELETE"@)
    } else {
        None
    }
}

/// The first of the parameters `path` and `url` that is there.
pub open spec fn path_param(params: Map<Seq<char>, Seq<char>>) -> Option<Seq<char>> {
    if params.contains_key("path"@) {
        Some(params["path"@])
    } else {
        param(params, "url"@)
    }
}

/// What an action of the category `web` asks for: a request to the
/// parameter `path`, or `url`. `get` sends headers and a query; `post`,
/// `put` and `patch` send a body and headers; `delete` sends headers;
/// `request` takes its method from the parameter `method` and sends
/// all.
pub open spec fn planned_web(action: Seq<char>, params: Map<Seq<char>, Seq<char>>) -> Planned {
    match path_param(params) {
        None => Planned::Missing("path or url"@),
        Some(path) => {
            let headers = param(params, "headers"@);
            let body = param(params, "body"@);
            let query = param(params, "query"@);
            if action == "get"@ {
                Planned::Plan(PlanView::Http { method: "GET"@, path, headers, body: None, query })
            } else if action == "post"@ || action == "put"@ || action == "patch"@ {
                Planned::Plan(
                    PlanView::Http {
                        method: web_method(action)->Some_0,
                        path,
                        headers,
                        body,
                        query: None,
                    },
                )
            } else if action == "delete"@ {
                Planned::Plan(
                    PlanView::Http { method: "DELETE"@, path, headers, body: None, query: None },
                )
            } else if action == "request"@ {
                match param(params, "method"@) {
                    None => Planned::Missing("method"@),
                    Some(method) => Planned::Plan(
                        PlanView::Http { method, path, headers, body, query },
                    ),
                }
            } else {
                Planned::Unknown("web/"@ + action)
            }
        },
    }
}

/// What an action of the category `web` asks for.
pub fn execute_web_request(action: &str, params: &NameMap<String>) -> (r: Result<
    Plan,
    ExecutorError,
>)
    ensures
        agrees(r, planned_web(action@, as_text(params@))),
{
    let path = match params.get("path") {
        Some(p) => p.clone(),
        None => match params.get("url") {
            Some(p) => p.clone(),
            None => {
                return Err(ExecutorError::MissingParameter("path or url".to_string()));
            },
        },
    };
    let headers = copy_param(params, "headers");
    let body = copy_param(params, "body");
    let query = copy_param(params, "query");
    let a = to_chars(action);
    if is_word(&a, "get") {
        Ok(Plan::Http(HttpPlan { method: "GET".to_string(), path, headers, body: None, query }))
    } else if is_word(&a, "post") {
        Ok(Plan::Http(HttpPlan { method: "POST".to_string(), path, headers, body, query: None }))
    } else if is_word(&a, "put") {
        Ok(Plan::Http(HttpPlan { method: "PUT".to_string(), path, headers, body, query: None }))
    } else if is_word(&a, "patch") {
        Ok(Plan::Http(HttpPlan { method: "PATCH".to_string(), path, headers, body, query: None }))
    } else if is_word(&a, "delete") {
        Ok(
            Plan::Http(
                HttpPlan { method: "DELETE".to_string(), path, headers, body: None, query: None },
            ),
        )
    } else if is_word(&a, "request") {
        match params.get("method") {
            None => Err(ExecutorError::MissingParameter("method".to_string())),
            Some(method) => Ok(
                Plan::Http(HttpPlan { method: method.clone(), path, headers, body, query }),
            ),
        }
    } else {
        Err(ExecutorError::UnknownAction(join2("web/", action)))
    }
}

/// A status code from its text.
pub open spec fn status_code(s: Seq<char>) -> Option<int> {
    match natural(s) {
        Some(x) => if x <= u16::MAX {
            Some(x)
        } else {
            None
        },
        None => None,
    }
}

/// What an assertion on the HTTP bridge comes to: `status` holds the
/// parameter `actual` against the parameter `expected`, both status
/// codes.
pub open spec fn planned_web_assert(action: Seq<char>, params: Map<Seq<char>, Seq<char>>) -> Planned {
    if action == "status"@ {
        match param(params, "expected"@) {
            None => Planned::Missing("expected"@),
            Some(expected_text) => match status_code(expected_text) {
                None => Planned::Missing("expected must be a number"@),
                Some(expected) => match param(params, "actual"@) {
                    None => Planned::Missing("actual"@),
                    Some(actual_text) => match status_code(actual_text) {
                        None => Planned::Missing("actual must be a number"@),
                        Some(actual) => if actual == expected {
                            Planned::Plan(PlanView::Passed)
                        } else {
                            Planned::Assertion(
                                "Expected status "@ + decimal_text(expected as nat) + ", got "@
                                    + decimal_text(actual as nat),
                            )
                        },
                    },
                },
            },
        }
    } else if action == "json_path"@ {
        Planned::Unknown("assert/json_path not yet implemented"@)
    } else {
        Planned::Unknown("assert/"@ + action)
    }
}

/// A status code from its text.
fn parse_status(text: &str) -> (r: Option<u64>)
    ensures
        match r {
            Some(code) => status_code(text@) == Some(code as int),
            None => status_code(text@) is None,
        },
{
    match parse_u64(&to_chars(text)) {
        Some(x) => if x <= 65535 {
            Some(x)
        } else {
            None
        },
        None => None,
    }
}

/// What an assertion on the HTTP bridge comes to.
pub fn execute_assert(action: &str, params: &NameMap<String>) -> (r: Result<Plan, ExecutorError>)
    ensures
        agrees(r, planned_web_assert(action@, as_text(params@))),
{
    let a = to_chars(action);
    if is_word(&a, "status") {
        let expected = match params.get("expected") {
            None => {
                return Err(ExecutorError::MissingParameter("expected".to_string()));
            },
            Some(text) => match parse_status(text.as_str()) {
                None => {
                    return Err(
                        ExecutorError::MissingParameter("expected must be a number".to_string()),
                    );
                },
                Some(code) => code,
            },
        };
        let actual = match params.get("actual") {
            None => {
                return Err(ExecutorError::MissingParameter("actual".to_string()));
            },
            Some(text) => match parse_status(text.as_str()) {
                None => {
                    return Err(
                        ExecutorError::MissingParameter("actual must be a number".to_string()),
                    );
                },
                Some(code) => code,
            },
        };
        if actual == expected {
            Ok(Plan::Passed)
        } else {
            let e = decimal(expected);
            let g = decimal(actual);
            let head = join3("Expected status ", e.as_str(), ", got ");
            Err(ExecutorError::AssertionFailed(join2(head.as_str(), g.as_str())))
        }
    } else if is_word(&a, "json_path") {
        Err(ExecutorError::UnknownAction("assert/json_path not yet implemented".to_string()))
    } else {
        Err(ExecutorError::UnknownAction(join2("assert/", action)))
    }
}

/// How a platform is named where an action is refused on it.
pub open spec fn platform_title(platform: Platform) -> Seq<char> {
    match platform {
        Platform::Playwright => "Playwright"@,
        Platform::Nodejs => "Node.js"@,
        Platform::Rust => "Rust"@,
        Platform::Python => "Python"@,
        Platform::Java => "Java"@,
        Platform::Go => "Go"@,
        Platform::Web => "Web"@,
    }
}

/// How the refusal of a category on a platform reads.
pub open spec fn unsupported_text(category: ActionCategory, platform: Platform) -> Seq<char> {
    "Action category "@ + category_name(category) + " not supported on "@ + platform_title(
        platform,
    )
}

/// What a step asks of the bridge of its platform. Every platform takes
/// the actions of its own categories, assertions and waits; the browser
/// needs an open page.
pub open spec fn planned_step(
    platform: Platform,
    category: ActionCategory,
    action: Seq<char>,
    has_page: bool,
    params: Map<Seq<char>, Seq<char>>,
    json: Map<Seq<char>, JsonTree>,
) -> Planned {
    match platform {
        Platform::Playwright => if !has_page {
            Planned::Config("Playwright action requires page_id"@)
        } else {
            match category {
                ActionCategory::Page => planned_page(action, params),
                ActionCategory::Element => planned_element(action, params),
                ActionCategory::Assert => planned_page_assert(action, params),
                ActionCategory::Wait => planned_page_wait(action, params),
                ActionCategory::Browser => planned_browser(action, params),
                ActionCategory::Network => planned_network(action),
                _ => Planned::Mismatch(unsupported_text(category, platform)),
            }
        },
        Platform::Nodejs => match category {
            ActionCategory::Node => planned_node(action, params, json),
            ActionCategory::Ctx => planned_ctx(action, params),
            ActionCategory::Mock => planned_mock(action, params),
            ActionCategory::Hook => planned_hook(action, params),
            ActionCategory::Assert => planned_node_assert(action, json),
            ActionCategory::Wait => planned_wait(action, params),
            _ => Planned::Mismatch(unsupported_text(category, platform)),
        },
        Platform::Rust => match category {
            ActionCategory::Rs => planned_call("rs/"@, "function"@, action, params, json),
            ActionCategory::Assert => planned_custom(action, json),
            ActionCategory::Wait => planned_wait(action, params),
            _ => Planned::Mismatch(unsupported_text(category, platform)),
        },
        Platform::Python => match category {
            ActionCategory::Py => planned_call("py/"@, "function"@, action, params, json),
            ActionCategory::Assert => planned_custom(action, json),
            ActionCategory::Wait => planned_wait(action, params),
            _ => Planned::Mismatch(unsupported_text(category, platform)),
        },
        Platform::Java => match category {
            ActionCategory::Java => planned_call("java/"@, "method"@, action, params, json),
            ActionCategory::Assert => planned_custom(action, json),
            ActionCategory::Wait => planned_wait(action, params),
            _ => Planned::Mismatch(unsupported_text(category, platform)),
        },
        Platform::Go => match category {
            ActionCategory::Go => planned_call("go/"@, "function"@, action, params, json),
            ActionCategory::Assert => planned_custom(action, json),
            ActionCategory::Wait => planned_wait(action, params),
            _ => Planned::Mismatch(unsupported_text(category, platform)),
        },
        Platform::Web => match category {
            ActionCategory::Web => planned_web(action, params),
            ActionCategory::Assert => planned_web_assert(action, params),
            ActionCategory::Wait => planned_wait(action, params),
            _ => Planned::Mismatch(unsupported_text(category, platform)),
        },
    }
}

/// The refusal of a category on a platform.
fn unsupported(category: ActionCategory, platform: Platform) -> (r: Result<Plan, ExecutorError>)
    ensures
        agrees(r, Planned::Mismatch(unsupported_text(category, platform))),
{
    let title = match platform {
        Platform::Playwright => "Playwright",
        Platform::Nodejs => "Node.js",
        Platform::Rust => "Rust",
        Platform::Python => "Python",
        Platform::Java => "Java",
        Platform::Go => "Go",
        Platform::Web => "Web",
    };
    let head = join3("Action category ", name_of_category(category), " not supported on ");
    Err(ExecutorError::PlatformMismatch(join2(head.as_str(), title)))
}

/// What a step asks of the bridge of its platform.
pub fn execute_step(
    platform: &Platform,
    action: &ParsedAction,
    has_page: bool,
    params: &NameMap<String>,
    json_params: &NameMap<JsonValue>,
) -> (r: Result<Plan, ExecutorError>)
    ensures
        agrees(
            r,
            planned_step(
                *platform,
                action.category,
                action.action@,
                has_page,
                as_text(params@),
                as_json(json_params@),
            ),
        ),
{
    let name = action.action.as_str();
    match platform {
        Platform::Playwright => {
            if !has_page {
                return Err(
                    ExecutorError::ConfigError("Playwright action requires page_id".to_string()),
                );
            }
            match action.category {
                ActionCategory::Page => execute_page_action(name, params),
                ActionCategory::Element => execute_element_action(name, params),
                ActionCategory::Assert => playwright::execute_assert(name, params),
                ActionCategory::Wait => execute_wait_action(name, params),
                ActionCategory::Browser => execute_browser_action(name, params),
                ActionCategory::Network => execute_network_action(name),
                _ => unsupported(action.category, *platform),
            }
        },
        Platform::Nodejs => match action.category {
            ActionCategory::Node => execute_node_action(name, params, json_params),
            ActionCategory::Ctx => execute_ctx_action(name, params),
            ActionCategory::Mock => execute_mock_action(name, params),
            ActionCategory::Hook => execute_hook_action(name, params),
            ActionCategory::Assert => execute_assert_action(name, json_params),
            ActionCategory::Wait => execute_wait(name, params),
            _ => unsupported(action.category, *platform),
        },
        Platform::Rust => match action.category {
            ActionCategory::Rs => execute_call("rs/", "function", name, params, json_params),
            ActionCategory::Assert => execute_custom_assertion(name, json_params),
            ActionCategory::Wait => execute_wait(name, params),
            _ => unsupported(action.category, *platform),
        },
        Platform::Python => match action.category {
            ActionCategory::Py => execute_call("py/", "function", name, params, json_params),
            ActionCategory::Assert => execute_custom_assertion(name, json_params),
            ActionCategory::Wait => execute_wait(name, params),
            _ => unsupported(action.category, *platform),
        },
        Platform::Java => match action.category {
            ActionCategory::Java => execute_java_call(name, params, json_params),
            ActionCategory::Assert => execute_custom_assertion(name, json_params),
            ActionCategory::Wait => execute_wait(name, params),
            _ => unsupported(action.category, *platform),
        },
        Platform::Go => match action.category {
            ActionCategory::Go => execute_go_call(name, params, json_params),
            ActionCategory::Assert => execute_custom_assertion(name, json_params),
            ActionCategory::Wait => execute_wait(name, params),
            _ => unsupported(action.category, *platform),
        },
        Platform::Web => match action.category {
            ActionCategory::Web => execute_web_request(name, params),
            ActionCategory::Assert => execute_assert(name, params),
            ActionCategory::Wait => execute_wait(name, params),
            _ => unsupported(action.category, *platform),
        },
    }
}

/// A step that succeeded with the outputs `outputs`.
pub fn passed(outputs: NameMap<String>) -> (r: StepResult)
    ensures
        r.success,
        r.outputs == outputs,
        r.error is None,
        r.response is None,
{
    StepResult { success: true, outputs, error: None, response: None }
}

/// What a call that returned makes of the step: it succeeds, with what
/// was returned, as JSON text, as the output `result`.
pub fn call_outcome(rendered: String) -> (r: StepResult)
    ensures
        r.success,
        r.error is None,
        r.response is None,
        as_text(r.outputs@) == Map::<Seq<char>, Seq<char>>::empty().insert("result"@, rendered@),
{
    let mut outputs: NameMap<String> = NameMap::new();
    assert(as_text(outputs@) =~= Map::<Seq<char>, Seq<char>>::empty());
    outputs.insert("result".to_string(), rendered);
    assert(as_text(outputs@) =~= Map::<Seq<char>, Seq<char>>::empty().insert(
        "result"@,
        rendered@,
    ));
    passed(outputs)
}

/// What reading the shared context makes of the step: it succeeds, with
/// the value, as JSON text, as the output `value`; where there is no
/// value that is `null`.
pub fn ctx_get_outcome(rendered: Option<String>) -> (r: StepResult)
    ensures
        r.success,
        r.error is None,
        r.response is None,
        as_text(r.outputs@) == Map::<Seq<char>, Seq<char>>::empty().insert(
            "value"@,
            match rendered {
                Some(text) => text@,
                None => "null"@,
            },
        ),
{
    let text = match rendered {
        Some(t) => t,
        None => "null".to_string(),
    };
    let mut outputs: NameMap<String> = NameMap::new();
    assert(as_text(outputs@) =~= Map::<Seq<char>, Seq<char>>::empty());
    outputs.insert("value".to_string(), text);
    assert(as_text(outputs@) =~= Map::<Seq<char>, Seq<char>>::empty().insert("value"@, text@));
    passed(outputs)
}

/// What clearing the shared context makes of the step: it succeeds, with
/// the number of values removed as the output `cleared`.
pub fn ctx_clear_outcome(cleared: u64) -> (r: StepResult)
    ensures
        r.success,
        r.error is None,
        r.response is None,
        as_text(r.outputs@) == Map::<Seq<char>, Seq<char>>::empty().insert(
            "cleared"@,
            decimal_text(cleared as nat),
        ),
{
    let mut outputs: NameMap<String> = NameMap::new();
    assert(as_text(outputs@) =~= Map::<Seq<char>, Seq<char>>::empty());
    outputs.insert("cleared".to_string(), decimal(cleared));
    assert(as_text(outputs@) =~= Map::<Seq<char>, Seq<char>>::empty().insert(
        "cleared"@,
        decimal_text(cleared as nat),
    ));
    passed(outputs)
}

/// What holding a returned value against the expected one makes of the
/// step. `shown_actual` and `shown_expected` are the two values as they
/// read in a message.
pub fn returns_outcome(
    function: &str,
    actual: &JsonValue,
    expected: &JsonValue,
    shown_actual: &str,
    shown_expected: &str,
) -> (r: Result<StepResult, ExecutorError>)
    ensures
        match r {
            Ok(result) => actual@ == expected@ && result.success && result.error is None
                && result.response is None && result.outputs@ == Map::<Seq<char>, String>::empty(),
            Err(e) => actual@ != expected@ && (e matches ExecutorError::AssertionFailed(m) && m@
                == "Function '"@ + function@ + "' returned "@ + shown_actual@ + ", expected "@
                + shown_expected@),
        },
{
    if crate::json::same_json(actual, expected) {
        Ok(passed(NameMap::new()))
    } else {
        let head = join3("Function '", function, "' returned ");
        let middle = join3(head.as_str(), shown_actual, ", expected ");
        Err(ExecutorError::AssertionFailed(join2(middle.as_str(), shown_expected)))
    }
}

/// What a call that was expected to fail makes of the step: the step
/// succeeds where the call failed.
pub fn throws_outcome(function: &str, call_failed: bool) -> (r: Result<StepResult, ExecutorError>)
    ensures
        match r {
            Ok(result) => call_failed && result.success && result.error is None
                && result.response is None && result.outputs@ == Map::<Seq<char>, String>::empty(),
            Err(e) => !call_failed && (e matches ExecutorError::AssertionFailed(m) && m@
                == "Function '"@ + function@ + "' did not throw an error"@),
        },
{
    if call_failed {
        Ok(passed(NameMap::new()))
    } else {
        Err(
            ExecutorError::AssertionFailed(join3("Function '", function, "' did not throw an error")),
        )
    }
}

/// What holding a value of the shared context against the expected one
/// makes of the step. A value that is not there counts as null.
pub fn ctx_equals_outcome(
    key: &str,
    actual: Option<&JsonValue>,
    expected: &JsonValue,
    shown_actual: &str,
    shown_expected: &str,
) -> (r: Result<StepResult, ExecutorError>)
    ensures
        match r {
            Ok(result) => (match actual {
                Some(v) => v@,
                None => JsonTree::Null,
            }) == expected@ && result.success && result.error is None && result.response is None
                && result.outputs@ == Map::<Seq<char>, String>::empty(),
            Err(e) => (match actual {
                Some(v) => v@,
                None => JsonTree::Null,
            }) != expected@ && (e matches ExecutorError::AssertionFailed(m) && m@ == "Context '"@
                + key@ + "': expected "@ + shown_expected@ + ", got "@ + shown_actual@),
        },
{
    let same = match actual {
        Some(v) => crate::json::same_json(v, expected),
        None => crate::json::same_json(&JsonValue::Null, expected),
    };
    if same {
        Ok(passed(NameMap::new()))
    } else {
        let head = join3("Context '", key, "': expected ");
        let middle = join3(head.as_str(), shown_expected, ", got ");
        Err(ExecutorError::AssertionFailed(join2(middle.as_str(), shown_actual)))
    }
}

/// What a custom assertion makes of the step. One that did not succeed
/// fails the step with its message, or with its name where it gave none.
/// One that succeeded gives its actual and expected values, as JSON text,
/// as the outputs `actual` and `expected`, each where it is there.
pub fn custom_outcome(
    name: &str,
    result: &AssertionResult,
    rendered_actual: Option<String>,
    rendered_expected: Option<String>,
) -> (r: Result<StepResult, ExecutorError>)
    ensures
        match r {
            Ok(step) => result.success && step.success && step.error is None && step.response
                is None && as_text(step.outputs@) == (match rendered_expected {
                Some(text) => (match rendered_actual {
                    Some(a) => Map::<Seq<char>, Seq<char>>::empty().insert("actual"@, a@),
                    None => Map::<Seq<char>, Seq<char>>::empty(),
                }).insert("expected"@, text@),
                None => match rendered_actual {
                    Some(a) => Map::<Seq<char>, Seq<char>>::empty().insert("actual"@, a@),
                    None => Map::<Seq<char>, Seq<char>>::empty(),
                },
            }),
            Err(e) => !result.success && (e matches ExecutorError::AssertionFailed(m) && m@
                == match result.message {
                Some(message) => message@,
                None => "Custom assertion '"@ + name@ + "' failed"@,
            }),
        },
{
    if !result.success {
        let message = match &result.message {
            Some(m) => m.clone(),
            None => join3("Custom assertion '", name, "' failed"),
        };
        return Err(ExecutorError::AssertionFailed(message));
    }
    let mut outputs: NameMap<String> = NameMap::new();
    let ghost none = Map::<Seq<char>, Seq<char>>::empty();
    assert(as_text(outputs@) =~= none);
    if let Some(text) = rendered_actual {
        outputs.insert("actual".to_string(), text);
        assert(as_text(outputs@) =~= none.insert("actual"@, text@));
    }
    let ghost first = as_text(outputs@);
    if let Some(text) = rendered_expected {
        outputs.insert("expected".to_string(), text);
        assert(as_text(outputs@) =~= first.insert("expected"@, text@));
    }
    Ok(passed(outputs))
}

/// `outputs` with each of the first `n` members of a body added under
/// `body.` and its key.
pub open spec fn with_members(
    outputs: Map<Seq<char>, Seq<char>>,
    members: Seq<(String, String)>,
    n: int,
) -> Map<Seq<char>, Seq<char>>
    decreases n,
{
    if n <= 0 {
        outputs
    } else {
        with_members(outputs, members, n - 1).insert(
            "body."@ + members[n - 1].0@,
            members[n - 1].1@,
        )
    }
}

/// What the response to a request makes of the step. The outputs are
/// `status`, `body` and `elapsed_ms`, and `body.` with the key for each
/// member of a body that is an object, which `members` holds as JSON
/// text. The step succeeds where the status is a success.
pub fn web_outcome(
    response: crate::web::WebResponse,
    rendered_body: String,
    members: Vec<(String, String)>,
) -> (r: StepResult)
    ensures
        r.success == (200 <= response.status < 300),
        match r.error {
            None => 200 <= response.status < 300,
            Some(text) => !(200 <= response.status < 300) && text@ == "HTTP "@ + decimal_text(
                response.status as nat,
            ) + " error"@,
        },
        r.response matches Some(api) && api.status == response.status && api.body@
            == response.body@,
        as_text(r.outputs@) == with_members(
            Map::<Seq<char>, Seq<char>>::empty().insert(
                "status"@,
                decimal_text(response.status as nat),
            ).insert("body"@, rendered_body@).insert(
                "elapsed_ms"@,
                decimal_text(response.elapsed_ms as nat),
            ),
            members@,
            members.len() as int,
        ),
{
    let ok = response.is_success();
    let mut outputs: NameMap<String> = NameMap::new();
    let ghost none = Map::<Seq<char>, Seq<char>>::empty();
    assert(as_text(outputs@) =~= none);
    outputs.insert("status".to_string(), decimal(response.status as u64));
    let ghost one = none.insert("status"@, decimal_text(response.status as nat));
    assert(as_text(outputs@) =~= one);
    outputs.insert("body".to_string(), rendered_body);
    let ghost two = one.insert("body"@, rendered_body@);
    assert(as_text(outputs@) =~= two);
    outputs.insert("elapsed_ms".to_string(), decimal(response.elapsed_ms));
    let ghost base = two.insert("elapsed_ms"@, decimal_text(response.elapsed_ms as nat));
    assert(as_text(outputs@) =~= base);
    let mut i: usize = 0;
    while i < members.len()
        invariant
            i <= members.len(),
            as_text(outputs@) == with_members(base, members@, i as int),
        decreases members.len() - i,
    {
        let key = join2("body.", members[i].0.as_str());
        let ghost before = as_text(outputs@);
        outputs.insert(key, members[i].1.clone());
        assert(as_text(outputs@) =~= before.insert(
            "body."@ + members[i as int].0@,
            members[i as int].1@,
        ));
        i = i + 1;
    }
    let error = if ok {
        None
    } else {
        let shown = decimal(response.status as u64);
        Some(join3("HTTP ", shown.as_str(), " error"))
    };
    StepResult { success: ok, outputs, error, response: Some(response.to_api_response()) }
}

} // verus!
