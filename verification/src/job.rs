//! Workflows, jobs and steps.

use vstd::prelude::*;
use crate::namemap::NameMap;
use crate::platform::{
    BrowserType, GoConfig, JavaConfig, NodejsConfig, Platform, PlatformsConfig, PlaywrightConfig,
    PythonConfig, RustConfig, Viewport, WebConfig,
};

verus! {

/// A number among step parameters. Reals are kept as their decimal text.
#[derive(Debug)]
pub enum NumberValue {
    Int(i64),
    UInt(u64),
    /// A finite real number, as text.
    Real(String),
    /// An infinity or a not-a-number, as text.
    NonFinite(String),
}

/// What a [`NumberValue`] holds.
pub enum NumberTree {
    Int(int),
    UInt(int),
    Real(Seq<char>),
    NonFinite(Seq<char>),
}

impl View for NumberValue {
    type V = NumberTree;

    open spec fn view(&self) -> NumberTree {
        match self {
            NumberValue::Int(i) => NumberTree::Int(*i as int),
            NumberValue::UInt(u) => NumberTree::UInt(*u as int),
            NumberValue::Real(t) => NumberTree::Real(t@),
            NumberValue::NonFinite(t) => NumberTree::NonFinite(t@),
        }
    }
}

impl Clone for NumberValue {
    fn clone(&self) -> (c: Self)
        ensures
            c@ == self@,
    {
        match self {
            NumberValue::Int(i) => NumberValue::Int(*i),
            NumberValue::UInt(u) => NumberValue::UInt(*u),
            NumberValue::Real(t) => NumberValue::Real(t.clone()),
            NumberValue::NonFinite(t) => NumberValue::NonFinite(t.clone()),
        }
    }
}

/// A free-form step parameter: a scalar, a sequence or a mapping.
#[derive(Debug)]
pub enum ParamValue {
    Null,
    Bool(bool),
    Number(NumberValue),
    Text(String),
    /// The items, and the text form of the whole sequence.
    Sequence(Vec<ParamValue>, String),
    /// The entries in order, and the text form of the whole mapping.
    Mapping(Vec<(String, ParamValue)>, String),
    /// A value under a tag, and the text form of the two together.
    Tagged(Box<ParamValue>, String),
}

/// What a [`ParamValue`] holds.
pub enum ParamTree {
    Null,
    Bool(bool),
    Number(NumberTree),
    Text(Seq<char>),
    Sequence(Seq<ParamTree>, Seq<char>),
    Mapping(Seq<(Seq<char>, ParamTree)>, Seq<char>),
    Tagged(Box<ParamTree>, Seq<char>),
}

impl View for ParamValue {
    type V = ParamTree;

    open spec fn view(&self) -> ParamTree
        decreases self,
    {
        match self {
            ParamValue::Null => ParamTree::Null,
            ParamValue::Bool(b) => ParamTree::Bool(*b),
            ParamValue::Number(n) => ParamTree::Number(n@),
            ParamValue::Text(t) => ParamTree::Text(t@),
            ParamValue::Sequence(items, text) => ParamTree::Sequence(
                Seq::new(
                    items.len() as nat,
                    |i: int|
                        if 0 <= i < items.len() {
                            items[i].view()
                        } else {
                            ParamTree::Null
                        },
                ),
                text@,
            ),
            ParamValue::Mapping(entries, text) => ParamTree::Mapping(
                Seq::new(
                    entries.len() as nat,
                    |i: int|
                        (
                            entries[i].0@,
                            if 0 <= i < entries.len() {
                                entries[i].1.view()
                            } else {
                                ParamTree::Null
                            },
                        ),
                ),
                text@,
            ),
            ParamValue::Tagged(inner, text) => ParamTree::Tagged(
                Box::new((**inner).view()),
                text@,
            ),
        }
    }
}

impl ParamValue {
    /// A copy that holds what the value holds.
    pub fn copy(&self) -> (c: Self)
        ensures
            c@ == self@,
        decreases self,
    {
        match self {
            ParamValue::Null => ParamValue::Null,
            ParamValue::Bool(b) => ParamValue::Bool(*b),
            ParamValue::Number(n) => ParamValue::Number(n.clone()),
            ParamValue::Text(t) => ParamValue::Text(t.clone()),
            ParamValue::Sequence(items, text) => {
                let mut copies: Vec<ParamValue> = Vec::new();
                let mut i: usize = 0;
                while i < items.len()
                    invariant
                        i <= items.len(),
                        copies.len() == i,
                        decreases_to!(self => *items),
                        forall|j: int| 0 <= j < i ==> (#[trigger] copies[j])@ == items[j]@,
                    decreases items.len() - i,
                {
                    let c = items[i].copy();
                    copies.push(c);
                    i = i + 1;
                }
                let c = ParamValue::Sequence(copies, text.clone());
                assert(c@ == self@) by {
                    assert(c@->Sequence_0 =~= self@->Sequence_0);
                }
                c
            },
            ParamValue::Mapping(entries, text) => {
                let mut copies: Vec<(String, ParamValue)> = Vec::new();
                let mut i: usize = 0;
                while i < entries.len()
                    invariant
                        i <= entries.len(),
                        copies.len() == i,
                        decreases_to!(self => *entries),
                        forall|j: int|
                            0 <= j < i ==> (#[trigger] copies[j]).0@ == entries[j].0@
                                && copies[j].1@ == entries[j].1@,
                    decreases entries.len() - i,
                {
                    let c = entries[i].1.copy();
                    copies.push((entries[i].0.clone(), c));
                    i = i + 1;
                }
                let c = ParamValue::Mapping(copies, text.clone());
                assert(c@ == self@) by {
                    assert forall|j: int| 0 <= j < copies.len() implies c@->Mapping_0[j]
                        == self@->Mapping_0[j] by {
                        assert(copies[j].0@ == entries[j].0@);
                    }
                    assert(c@->Mapping_0 =~= self@->Mapping_0);
                }
                c
            },
            ParamValue::Tagged(inner, text) => {
                let c = inner.copy();
                ParamValue::Tagged(Box::new(c), text.clone())
            },
        }
    }
}

impl Clone for ParamValue {
    fn clone(&self) -> (c: Self)
        ensures
            c@ == self@,
    {
        self.copy()
    }
}

/// Retry policy of a step.
#[derive(Debug, Clone)]
pub struct RetryConfig {
    pub max_attempts: u32,
    /// Delay between attempts in milliseconds.
    pub delay: u64,
}

/// Delay between attempts, in milliseconds, when a policy names none.
pub fn default_retry_delay() -> (d: u64)
    ensures
        d == 1000,
{
    1000
}

/// A single step of a job.
#[derive(Debug, Clone)]
pub struct Step {
    pub name: Option<String>,
    /// Platform of this step; overrides the job's and the workflow's.
    pub platform: Option<Platform>,
    /// The action, as `category/action`.
    pub uses: String,
    /// Parameters of the action.
    pub with: NameMap<ParamValue>,
    pub env: NameMap<String>,
    /// Condition under which the step runs.
    pub condition: Option<String>,
    /// Identifier under which later steps read this step's outputs.
    pub id: Option<String>,
    /// Timeout in milliseconds.
    pub timeout: Option<u64>,
    pub continue_on_error: bool,
    pub retry: Option<RetryConfig>,
}

/// Settings that jobs fall back to.
#[derive(Debug, Clone)]
pub struct JobDefaults {
    pub browser: Option<BrowserType>,
    /// Timeout in milliseconds.
    pub timeout: Option<u64>,
    pub headless: Option<bool>,
}

impl Default for JobDefaults {
    fn default() -> (d: Self)
        ensures
            d.browser is None,
            d.timeout is None,
            d.headless is None,
    {
        JobDefaults { browser: None, timeout: None, headless: None }
    }
}

/// A job: an ordered list of steps with its hooks.
#[derive(Debug, Clone)]
pub struct Job {
    pub name: Option<String>,
    pub platform: Option<Platform>,
    pub browser: BrowserType,
    pub headless: bool,
    pub viewport: Option<Viewport>,
    /// Jobs of the same workflow that run before this one.
    pub needs: Vec<String>,
    pub condition: Option<String>,
    pub env: NameMap<String>,
    pub before: Vec<Step>,
    pub after: Vec<Step>,
    pub steps: Vec<Step>,
    pub continue_on_error: bool,
    /// Timeout in milliseconds.
    pub timeout: Option<u64>,
}

/// The workflows that a workflow waits for.
#[derive(Debug, Clone)]
pub struct DependsOn {
    pub workflows: Vec<String>,
    /// Run even when a dependency failed or was skipped.
    pub always: bool,
}

impl Default for DependsOn {
    fn default() -> (d: Self)
        ensures
            d.workflows@ == Seq::<String>::empty(),
            !d.always,
    {
        DependsOn { workflows: Vec::new(), always: false }
    }
}

/// A complete workflow definition.
#[derive(Debug, Clone)]
pub struct Workflow {
    pub name: String,
    pub depends_on: DependsOn,
    /// Platform of every job and step that names none.
    pub platform: Option<Platform>,
    pub platforms: PlatformsConfig,
    pub env: NameMap<String>,
    pub defaults: Option<JobDefaults>,
    /// Steps run before any job.
    pub before: Vec<Step>,
    /// Steps run after all jobs.
    pub after: Vec<Step>,
    pub jobs: NameMap<Job>,
}

impl Workflow {
    /// The browser automation settings, if any.
    pub fn playwright(&self) -> (c: Option<&PlaywrightConfig>)
        ensures
            c is Some == self.platforms.playwright is Some,
            c matches Some(r) ==> Some(*r) == self.platforms.playwright,
    {
        self.platforms.playwright.as_ref()
    }

    /// The Node.js settings, if any.
    pub fn nodejs(&self) -> (c: Option<&NodejsConfig>)
        ensures
            c is Some == self.platforms.nodejs is Some,
            c matches Some(r) ==> Some(*r) == self.platforms.nodejs,
    {
        self.platforms.nodejs.as_ref()
    }

    /// The Rust settings, if any.
    pub fn rust(&self) -> (c: Option<&RustConfig>)
        ensures
            c is Some == self.platforms.rust is Some,
            c matches Some(r) ==> Some(*r) == self.platforms.rust,
    {
        self.platforms.rust.as_ref()
    }

    /// The Python settings, if any.
    pub fn python(&self) -> (c: Option<&PythonConfig>)
        ensures
            c is Some == self.platforms.python is Some,
            c matches Some(r) ==> Some(*r) == self.platforms.python,
    {
        self.platforms.python.as_ref()
    }

    /// The Java settings, if any.
    pub fn java(&self) -> (c: Option<&JavaConfig>)
        ensures
            c is Some == self.platforms.java is Some,
            c matches Some(r) ==> Some(*r) == self.platforms.java,
    {
        self.platforms.java.as_ref()
    }

    /// The Go settings, if any.
    pub fn go(&self) -> (c: Option<&GoConfig>)
        ensures
            c is Some == self.platforms.go is Some,
            c matches Some(r) ==> Some(*r) == self.platforms.go,
    {
        self.platforms.go.as_ref()
    }

    /// The HTTP settings, if any.
    pub fn web(&self) -> (c: Option<&WebConfig>)
        ensures
            c is Some == self.platforms.web is Some,
            c matches Some(r) ==> Some(*r) == self.platforms.web,
    {
        self.platforms.web.as_ref()
    }
}

} // verus!
