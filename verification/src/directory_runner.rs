//! Running a directory of workflows: the settings of the run, how a run
//! begins, and what the runs of several profiles come to.

use vstd::prelude::*;
use crate::error::ExecutorError;
use crate::graph::{acyclic, closed, distinct, leveled};
use crate::job::Workflow;
use crate::namemap::NameMap;
use crate::platform::PlatformsConfig;
use crate::result::WorkflowResult;
use crate::runner_config::RunnerConfig;
use crate::scheduler::{DagRun, DirectoryResult};
use crate::text::{join2, texts};
use crate::workflow_dag::{graph_of, DAGError, WorkflowDAG};

verus! {

/// Why a run over a directory did not take place.
#[derive(Debug)]
pub enum DirectoryRunError {
    /// The directory could not be read; holds what the reader said.
    Load(String),
    Dag(DAGError),
    Executor(ExecutorError),
}

impl DirectoryRunError {
    /// How the error reads.
    pub open spec fn text(&self) -> Seq<char> {
        match self {
            DirectoryRunError::Load(s) => "Load error: "@ + s@,
            DirectoryRunError::Dag(e) => "DAG error: "@ + e.text(),
            DirectoryRunError::Executor(e) => "Executor error: "@ + e.text(),
        }
    }

    /// How the error reads.
    pub fn message(&self) -> (s: String)
        ensures
            s@ == self.text(),
    {
        match self {
            DirectoryRunError::Load(s) => join2("Load error: ", s.as_str()),
            DirectoryRunError::Dag(e) => {
                let inner = e.message();
                join2("DAG error: ", inner.as_str())
            },
            DirectoryRunError::Executor(e) => {
                let inner = e.message();
                join2("Executor error: ", inner.as_str())
            },
        }
    }
}

/// What the runs of the profiles came to.
#[derive(Debug)]
pub struct MultiProfileResult {
    /// Every profile ran, and with success.
    pub success: bool,
    pub profiles: NameMap<DirectoryResult>,
}

/// The settings of a run over a directory.
#[derive(Debug)]
pub struct WorkflowDirectoryRunner {
    pub directory: String,
    /// How many workflows run at a time.
    pub max_concurrent: usize,
    pub fail_fast: bool,
    /// Configurations that every executor of the run begins with.
    pub platforms: PlatformsConfig,
    pub config: Option<RunnerConfig>,
}

/// A run over a directory in which only the workflows take part whose
/// name `keep` lets pass.
pub struct FilteredRunner<F> {
    pub runner: WorkflowDirectoryRunner,
    pub keep: F,
}

/// The workflows of `all` that are picked, in their order: workflow `i`
/// is picked where `picks` holds `true` at place `i`.
pub open spec fn chosen(all: Seq<Workflow>, picks: Seq<bool>) -> Seq<Workflow>
    decreases all.len(),
{
    if all.len() == 0 {
        Seq::empty()
    } else if all.len() <= picks.len() && picks[all.len() - 1] {
        chosen(all.drop_last(), picks).push(all.last())
    } else {
        chosen(all.drop_last(), picks)
    }
}

/// The workflows of `workflows` that are picked, in their order.
pub fn choose_workflows(workflows: Vec<Workflow>, picks: &Vec<bool>) -> (kept: Vec<Workflow>)
    ensures
        kept@ == chosen(workflows@, picks@),
{
    let ghost all = workflows@;
    let count = workflows.len();
    let mut kept: Vec<Workflow> = Vec::new();
    let mut at: usize = 0;
    proof {
        assert(all.take(0) =~= Seq::<Workflow>::empty());
    }
    for workflow in it: workflows
        invariant
            all == it.seq(),
            all.len() == count,
            at == it.index(),
            at <= all.len(),
            kept@ == chosen(all.take(at as int), picks@),
    {
        proof {
            assert(all.take(at + 1).drop_last() =~= all.take(at as int));
            assert(all.take(at + 1).last() == workflow);
        }
        if at < picks.len() && picks[at] {
            kept.push(workflow);
        }
        at = at + 1;
    }
    assert(all.take(all.len() as int) =~= all);
    kept
}

/// Whether `keep`, asked of the name `name`, said `pick`.
pub open spec fn says<F: Fn(&str) -> bool>(keep: F, name: Seq<char>, pick: bool) -> bool {
    exists|text: &str| text@ == name && #[trigger] call_ensures(keep, (text,), pick)
}

/// Whether `picks` holds, for each workflow of `all`, what `keep` said of
/// its name.
pub open spec fn picked_by<F: Fn(&str) -> bool>(keep: F, all: Seq<Workflow>, picks: Seq<bool>) -> bool {
    picks.len() == all.len() && forall|i: int|
        0 <= i < all.len() ==> says(keep, all[i].name@, #[trigger] picks[i])
}

/// Whether `r` is how the run of the workflows `taking_part` begins:
/// they are made a graph, which must be one, and nothing is decided
/// yet.
pub open spec fn begins(
    r: Result<DagRun, DirectoryRunError>,
    fail_fast: bool,
    taking_part: Seq<Workflow>,
) -> bool {
    match r {
        Ok(run) => distinct(graph_of(taking_part)) && closed(graph_of(taking_part)) && acyclic(
            graph_of(taking_part),
        ) && run.consistent() && run.fail_fast() == fail_fast && begun_on(run, taking_part)
            && run.running().len() == 0 && run.skipped().len() == 0 && run.results() == Map::<
            Seq<char>,
            WorkflowResult,
        >::empty() && !run.failed(),
        Err(e) => e is Dag && !(distinct(graph_of(taking_part)) && closed(graph_of(taking_part))
            && acyclic(graph_of(taking_part))),
    }
}

/// The result of a workflow whose run ended in an error: it fails, no
/// job has a result, and the error stands in place of the run id.
pub fn errored_workflow(error: &ExecutorError) -> (r: WorkflowResult)
    ensures
        !r.success,
        r.jobs@ == Map::<Seq<char>, crate::result::JobResult>::empty(),
        r.run_id@ == "error: "@ + error.text(),
{
    let shown = error.message();
    WorkflowResult { success: false, jobs: NameMap::new(), run_id: join2("error: ", shown.as_str()) }
}

/// The result of a profile whose run did not take place: it fails, and
/// the error stands among the skipped.
pub fn errored_profile(error: &DirectoryRunError) -> (r: DirectoryResult)
    ensures
        !r.success,
        r.workflows@ == Map::<Seq<char>, WorkflowResult>::empty(),
        r.execution_order@.len() == 0,
        texts(r.skipped@) == seq!["Error: "@ + error.text()],
{
    let shown = error.message();
    let mut skipped: Vec<String> = Vec::new();
    skipped.push(join2("Error: ", shown.as_str()));
    assert(texts(skipped@) =~= seq!["Error: "@ + error.text()]);
    DirectoryResult {
        success: false,
        workflows: NameMap::new(),
        execution_order: Vec::new(),
        skipped,
    }
}

/// Whether each of the first `n` runs took place and succeeded.
pub open spec fn all_succeeded(
    runs: Seq<(String, Result<DirectoryResult, DirectoryRunError>)>,
    n: int,
) -> bool {
    forall|i: int|
        0 <= i < n ==> ((#[trigger] runs[i]).1 matches Ok(result) && result.success)
}

/// Whether run `i` is the last of the first `n` runs under its name.
pub open spec fn last_under_its_name(
    runs: Seq<(String, Result<DirectoryResult, DirectoryRunError>)>,
    i: int,
    n: int,
) -> bool {
    0 <= i < n && forall|j: int| i < j < n ==> (#[trigger] runs[j]).0@ != runs[i].0@
}

/// Whether `result` is what is recorded for a run that came to
/// `outcome`: the result of the run as it is; or, for a run that did not
/// take place, a failure without workflows and levels, with the error
/// as the one entry of the skipped.
pub open spec fn recorded_for(
    result: DirectoryResult,
    outcome: Result<DirectoryResult, DirectoryRunError>,
) -> bool {
    match outcome {
        Ok(run) => result == run,
        Err(e) => !result.success && result.workflows@ == Map::<Seq<char>, WorkflowResult>::empty()
            && result.execution_order@.len() == 0 && texts(result.skipped@) == seq![
            "Error: "@ + e.text(),
        ],
    }
}

/// What the runs of several profiles come to. The whole succeeded where
/// every profile ran and succeeded. Under the name of a profile stands
/// the result of its run; a profile whose run did not take place is
/// recorded as failed, its error among the skipped. Where a name comes
/// twice, the later run counts.
pub fn combine_profiles(runs: Vec<(String, Result<DirectoryResult, DirectoryRunError>)>) -> (r:
    MultiProfileResult)
    ensures
        r.success == all_succeeded(runs@, runs.len() as int),
        forall|name: Seq<char>|
            r.profiles@.contains_key(name) <==> exists|i: int|
                0 <= i < runs.len() && (#[trigger] runs[i]).0@ == name,
        forall|i: int| #[trigger]
            last_under_its_name(runs@, i, runs.len() as int) ==> r.profiles@.contains_key(
                runs[i].0@,
            ) && recorded_for(r.profiles@[runs[i].0@], runs[i].1),
{
    let mut profiles: NameMap<DirectoryResult> = NameMap::new();
    let mut all = true;
    let ghost whole = runs@;
    let count = runs.len();
    let mut at: usize = 0;
    for run in it: runs.into_iter()
        invariant
            at == it.index(),
            at <= whole.len(),
            whole.len() == count,
            it.seq() == whole,
            all == all_succeeded(whole, at as int),
            forall|name: Seq<char>|
                profiles@.contains_key(name) <==> exists|i: int|
                    0 <= i < at && (#[trigger] whole[i]).0@ == name,
            forall|i: int| #[trigger]
                last_under_its_name(whole, i, at as int) ==> profiles@.contains_key(whole[i].0@)
                    && recorded_for(profiles@[whole[i].0@], whole[i].1),
    {
        let (name, outcome) = run;
        let ghost before = profiles@;
        let result = match outcome {
            Ok(result) => {
                if !result.success {
                    all = false;
                }
                result
            },
            Err(e) => {
                all = false;
                errored_profile(&e)
            },
        };
        profiles.insert(name, result);
        proof {
            assert(recorded_for(result, whole[at as int].1));
            assert forall|i: int| #[trigger]
                last_under_its_name(whole, i, at + 1) implies profiles@.contains_key(whole[i].0@)
                && recorded_for(profiles@[whole[i].0@], whole[i].1) by {
                if i < at {
                    assert(whole[at as int].0@ != whole[i].0@);
                    assert(last_under_its_name(whole, i, at as int));
                }
            }
            assert forall|other: Seq<char>|
                profiles@.contains_key(other) <==> exists|i: int|
                    0 <= i < at + 1 && (#[trigger] whole[i]).0@ == other by {
                if profiles@.contains_key(other) {
                    if other == whole[at as int].0@ {
                        assert(whole[at as int].0@ == other);
                    } else {
                        assert(before.contains_key(other));
                        let i = choose|i: int| 0 <= i < at && (#[trigger] whole[i]).0@ == other;
                        assert(whole[i].0@ == other);
                    }
                }
                if exists|i: int| 0 <= i < at + 1 && (#[trigger] whole[i]).0@ == other {
                    let i = choose|i: int| 0 <= i < at + 1 && (#[trigger] whole[i]).0@ == other;
                    if i < at {
                        assert(before.contains_key(other));
                    }
                }
            }
            assert(all == all_succeeded(whole, at + 1)) by {
                if all_succeeded(whole, at + 1) {
                    assert(whole[at as int].1 is Ok);
                }
            }
        }
        at = at + 1;
    }
    MultiProfileResult { success: all, profiles }
}

/// Whether `run` is the run of the workflows `taking_part` before
/// anything is decided: all of them are pending, in their order; each
/// stands in the graph under its name, with its dependencies and with
/// its word on whether it runs always; the graph holds nothing else;
/// and the levels are those of their dependencies.
pub open spec fn begun_on(run: DagRun, taking_part: Seq<Workflow>) -> bool {
    &&& run.pending().len() == taking_part.len()
    &&& forall|i: int| 0 <= i < taking_part.len() ==> #[trigger] run.pending()[i] == taking_part[i].name@
    &&& forall|i: int|
        0 <= i < taking_part.len() ==> run.nodes().contains_key((#[trigger] taking_part[i]).name@) && ({
            let node = run.nodes()[taking_part[i].name@];
            node.workflow == taking_part[i] && node.always == taking_part[i].depends_on.always
                && texts(node.dependencies@) == texts(taking_part[i].depends_on.workflows@)
        })
    &&& forall|name: Seq<char>| #[trigger]
        run.nodes().contains_key(name) ==> exists|i: int|
            0 <= i < taking_part.len() && (#[trigger] taking_part[i]).name@ == name
    &&& leveled(graph_of(taking_part), run.levels())
}

impl WorkflowDirectoryRunner {
    /// Whether the run has a configuration with profiles.
    pub open spec fn profiled(&self) -> bool {
        match self.config {
            Some(c) => c.profiles.pairs().len() > 0,
            None => false,
        }
    }

    /// A run over `directory` with the usual settings: four workflows at
    /// a time, no fail-fast, no configurations.
    pub fn new(directory: &str) -> (runner: Self)
        ensures
            runner.directory@ == directory@,
            runner.max_concurrent == 4,
            !runner.fail_fast,
            runner.platforms == PlatformsConfig::default_spec(),
            runner.config is None,
    {
        WorkflowDirectoryRunner {
            directory: directory.to_string(),
            max_concurrent: 4,
            fail_fast: false,
            platforms: PlatformsConfig::default(),
            config: None,
        }
    }

    /// A run over `directory` with the settings of `config`.
    pub fn with_config(directory: &str, config: RunnerConfig, platforms: PlatformsConfig) -> (runner:
        Self)
        ensures
            runner.directory@ == directory@,
            runner.max_concurrent == config.parallel,
            runner.fail_fast == config.fail_fast,
            runner.platforms == platforms,
            runner.config == Some(config),
    {
        WorkflowDirectoryRunner {
            directory: directory.to_string(),
            max_concurrent: config.parallel,
            fail_fast: config.fail_fast,
            platforms,
            config: Some(config),
        }
    }

    /// Whether the run is one run per profile.
    pub fn has_multiple_profiles(&self) -> (b: bool)
        ensures
            b == self.profiled(),
    {
        match &self.config {
            Some(c) => c.has_profiles(),
            None => false,
        }
    }

    /// The same run with `max` workflows at a time.
    pub fn parallel(self, max: usize) -> (runner: Self)
        ensures
            runner == (WorkflowDirectoryRunner { max_concurrent: max, ..self }),
    {
        WorkflowDirectoryRunner { max_concurrent: max, ..self }
    }

    /// The same run with fail-fast switched on or off.
    pub fn fail_fast(self, enabled: bool) -> (runner: Self)
        ensures
            runner == (WorkflowDirectoryRunner { fail_fast: enabled, ..self }),
    {
        WorkflowDirectoryRunner { fail_fast: enabled, ..self }
    }

    /// The same run over the workflows alone whose name `keep` lets
    /// pass.
    pub fn filter<F: Fn(&str) -> bool>(self, keep: F) -> (filtered: FilteredRunner<F>)
        ensures
            filtered.runner == self,
            filtered.keep == keep,
    {
        FilteredRunner { runner: self, keep }
    }

    /// The same run with the configurations `platforms`.
    pub fn platforms(self, platforms: PlatformsConfig) -> (runner: Self)
        ensures
            runner == (WorkflowDirectoryRunner { platforms, ..self }),
    {
        WorkflowDirectoryRunner { platforms, ..self }
    }

    /// The names of the runs to make: those of the profiles, or `default`
    /// alone where there are none.
    pub fn profile_names(&self) -> (names: Vec<String>)
        ensures
            !self.profiled() ==> names.len() == 1 && names[0]@ == "default"@,
            self.profiled() ==> names.len() == self.config->Some_0.profiles.pairs().len()
                && forall|i: int|
                0 <= i < names.len() ==> (#[trigger] names[i])@
                    == self.config->Some_0.profiles.pairs()[i].0,
    {
        match &self.config {
            Some(c) => c.profile_names(),
            None => {
                let mut names: Vec<String> = Vec::new();
                names.push("default".to_string());
                names
            },
        }
    }

    /// Begins the run of `workflows`: they are made a graph, which must
    /// be one, and nothing is decided yet. No workflows make an empty
    /// run, which is finished and a success.
    pub fn begin(&self, workflows: Vec<Workflow>) -> (r: Result<DagRun, DirectoryRunError>)
        ensures
            begins(r, self.fail_fast, workflows@),
    {
        let ghost taking_part = workflows@;
        match WorkflowDAG::build(workflows) {
            Ok(dag) => {
                let ghost built = dag;
                let run = DagRun::new(dag, self.fail_fast);
                proof {
                    let g = graph_of(taking_part);
                    assert forall|i: int| 0 <= i < taking_part.len() implies built.entries()[i].0
                        == (#[trigger] taking_part[i]).name@ && texts(
                        built.entries()[i].1.dependencies@,
                    ) == texts(taking_part[i].depends_on.workflows@) by {
                        assert(built.graph()[i] == g[i]);
                    }
                    assert forall|name: Seq<char>| #[trigger]
                        run.nodes().contains_key(name) implies exists|i: int|
                        0 <= i < taking_part.len() && (#[trigger] taking_part[i]).name@ == name by {
                        built.lemma_entries(name);
                        let i = choose|i: int|
                            0 <= i < built.entries().len() && (#[trigger] built.entries()[i]).0
                                == name;
                        assert(taking_part[i].name@ == name);
                    }
                    assert(begun_on(run, taking_part));
                }
                Ok(run)
            },
            Err(e) => Err(DirectoryRunError::Dag(e)),
        }
    }
}

impl<F: Fn(&str) -> bool> FilteredRunner<F> {
    /// What `keep` says of the name of each workflow, in their order.
    pub fn picks(&self, workflows: &Vec<Workflow>) -> (picks: Vec<bool>)
        requires
            forall|name: &str| call_requires(self.keep, (name,)),
        ensures
            picked_by(self.keep, workflows@, picks@),
    {
        let mut picks: Vec<bool> = Vec::new();
        let mut i: usize = 0;
        while i < workflows.len()
            invariant
                i <= workflows.len(),
                picks.len() == i,
                forall|name: &str| call_requires(self.keep, (name,)),
                forall|j: int|
                    0 <= j < i ==> says(self.keep, workflows[j].name@, #[trigger] picks[j]),
            decreases workflows.len() - i,
        {
            let name = workflows[i].name.as_str();
            let pick = (self.keep)(name);
            assert(says(self.keep, workflows[i as int].name@, pick)) by {
                assert(name@ == workflows[i as int].name@ && call_ensures(self.keep, (name,), pick));
            }
            picks.push(pick);
            i = i + 1;
        }
        picks
    }

    /// Begins the run of those of `workflows` whose name `keep` lets
    /// pass.
    pub fn begin(&self, workflows: Vec<Workflow>) -> (r: Result<DagRun, DirectoryRunError>)
        requires
            forall|name: &str| call_requires(self.keep, (name,)),
        ensures
            exists|picks: Seq<bool>| #[trigger]
                picked_by(self.keep, workflows@, picks) && begins(
                    r,
                    self.runner.fail_fast,
                    chosen(workflows@, picks),
                ),
    {
        let picks = self.picks(&workflows);
        let ghost all = workflows@;
        let kept = choose_workflows(workflows, &picks);
        let r = self.runner.begin(kept);
        assert(picked_by(self.keep, all, picks@) && begins(
            r,
            self.runner.fail_fast,
            chosen(all, picks@),
        ));
        r
    }
}

} // verus!
