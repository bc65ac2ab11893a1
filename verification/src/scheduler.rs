//! Running the workflows of a graph: which of them may start, which are
//! skipped, and what the run comes to.
//!
//! The state here is what a run has decided so far. Whoever drives the run
//! asks for a dispatch pass at the start and after every change, starts the
//! workflows that the pass hands out, and records each result as it comes.

use vstd::prelude::*;
use crate::graph::find_place;
use crate::namemap::NameMap;
use crate::result::WorkflowResult;
use crate::text::{copy_names, texts};
use crate::workflow_dag::{WorkflowDAG, WorkflowNode};

verus! {

/// What a dispatch pass finds for a workflow that has not been decided.
#[derive(Debug, Clone, Copy, PartialEq, Eq, Structural)]
pub enum RunStatus {
    /// It can start now.
    Ready,
    /// It has a dependency that is neither finished nor skipped.
    Waiting,
    /// It will not run.
    Skip,
}

/// Whether `dep` has finished or was skipped.
pub open spec fn dep_done(
    results: Map<Seq<char>, WorkflowResult>,
    skipped: Seq<Seq<char>>,
    dep: Seq<char>,
) -> bool {
    skipped.contains(dep) || results.contains_key(dep)
}

/// Whether `dep` failed or was skipped.
pub open spec fn dep_bad(
    results: Map<Seq<char>, WorkflowResult>,
    skipped: Seq<Seq<char>>,
    dep: Seq<char>,
) -> bool {
    skipped.contains(dep) || (results.contains_key(dep) && !results[dep].success)
}

/// Whether every one of `deps` has finished or was skipped.
pub open spec fn all_done(
    deps: Seq<Seq<char>>,
    results: Map<Seq<char>, WorkflowResult>,
    skipped: Seq<Seq<char>>,
) -> bool {
    forall|k: int| 0 <= k < deps.len() ==> dep_done(results, skipped, #[trigger] deps[k])
}

/// Whether one of `deps` failed or was skipped.
pub open spec fn any_bad(
    deps: Seq<Seq<char>>,
    results: Map<Seq<char>, WorkflowResult>,
    skipped: Seq<Seq<char>>,
) -> bool {
    exists|k: int| 0 <= k < deps.len() && dep_bad(results, skipped, #[trigger] deps[k])
}

/// The status of the workflow `name` by its dependencies alone: waiting
/// while one of them is open; else ready, unless one of them failed or was
/// skipped and the workflow does not ask to run always.
pub open spec fn status_of(
    nodes: Map<Seq<char>, WorkflowNode>,
    results: Map<Seq<char>, WorkflowResult>,
    skipped: Seq<Seq<char>>,
    name: Seq<char>,
) -> RunStatus {
    if !nodes.contains_key(name) {
        RunStatus::Skip
    } else {
        let deps = texts(nodes[name].dependencies@);
        if !all_done(deps, results, skipped) {
            RunStatus::Waiting
        } else if any_bad(deps, results, skipped) && !nodes[name].always {
            RunStatus::Skip
        } else {
            RunStatus::Ready
        }
    }
}

/// Whether the workflow `name` asks to run always.
pub open spec fn runs_always(nodes: Map<Seq<char>, WorkflowNode>, name: Seq<char>) -> bool {
    nodes.contains_key(name) && nodes[name].always
}

/// What a dispatch pass decides for the workflow `name`: once a failure has
/// been seen under fail-fast, all but the always-running are skipped; else
/// the status by dependencies holds.
pub open spec fn decision(
    nodes: Map<Seq<char>, WorkflowNode>,
    results: Map<Seq<char>, WorkflowResult>,
    skipped: Seq<Seq<char>>,
    failed: bool,
    fail_fast: bool,
    name: Seq<char>,
) -> RunStatus {
    if fail_fast && failed && !runs_always(nodes, name) {
        RunStatus::Skip
    } else {
        status_of(nodes, results, skipped, name)
    }
}

/// The names of `names` for which `keep` holds, in their order.
pub open spec fn pick(names: Seq<Seq<char>>, keep: spec_fn(Seq<char>) -> bool) -> Seq<Seq<char>>
    decreases names.len(),
{
    if names.len() == 0 {
        Seq::empty()
    } else if keep(names.last()) {
        pick(names.drop_last(), keep).push(names.last())
    } else {
        pick(names.drop_last(), keep)
    }
}

/// A picked name is one of the names, and `keep` holds of it.
pub proof fn lemma_pick_contains(
    names: Seq<Seq<char>>,
    keep: spec_fn(Seq<char>) -> bool,
    name: Seq<char>,
)
    ensures
        pick(names, keep).contains(name) <==> names.contains(name) && keep(name),
    decreases names.len(),
{
    if names.len() > 0 {
        let front = names.drop_last();
        lemma_pick_contains(front, keep, name);
        let picked = pick(names, keep);
        if picked.contains(name) {
            let i = choose|i: int| 0 <= i < picked.len() && picked[i] == name;
            if keep(names.last()) && i == picked.len() - 1 {
                assert(names[names.len() - 1] == name);
            } else {
                assert(pick(front, keep)[i] == name);
                let j = choose|j: int| 0 <= j < front.len() && front[j] == name;
                assert(names[j] == name);
            }
        }
        if names.contains(name) && keep(name) {
            let j = choose|j: int| 0 <= j < names.len() && names[j] == name;
            if j == names.len() - 1 {
                assert(picked[picked.len() - 1] == name);
            } else {
                assert(front[j] == name);
                let i = choose|i: int|
                    0 <= i < pick(front, keep).len() && pick(front, keep)[i] == name;
                assert(picked[i] == name);
            }
        }
    }
}

/// Whether the dependencies of `node` have all been decided.
fn deps_status(
    node: &WorkflowNode,
    results: &NameMap<WorkflowResult>,
    skipped: &Vec<String>,
) -> (r: (bool, bool))
    ensures
        r.0 == all_done(texts(node.dependencies@), results@, texts(skipped@)),
        r.0 ==> r.1 == any_bad(texts(node.dependencies@), results@, texts(skipped@)),
{
    let ghost deps = texts(node.dependencies@);
    let ghost skips = texts(skipped@);
    let mut all = true;
    let mut bad = false;
    let mut k: usize = 0;
    while k < node.dependencies.len()
        invariant
            k <= node.dependencies.len(),
            deps == texts(node.dependencies@),
            skips == texts(skipped@),
            all == (forall|e: int| 0 <= e < k ==> dep_done(results@, skips, #[trigger] deps[e])),
            bad == (exists|e: int| 0 <= e < k && dep_bad(results@, skips, #[trigger] deps[e])),
        decreases node.dependencies.len() - k,
    {
        let dep = node.dependencies[k].as_str();
        let ghost d = deps[k as int];
        assert(d == dep@);
        let in_skipped = find_place(skipped, dep).is_some();
        proof {
            if in_skipped {
                let j = choose|j: int| 0 <= j < skipped.len() && skipped[j]@ == dep@;
                assert(skips[j] == d);
            } else {
                if skips.contains(d) {
                    let j = choose|j: int| 0 <= j < skips.len() && skips[j] == d;
                    assert(skipped[j]@ == d);
                }
            }
            assert(in_skipped == skips.contains(d));
        }
        if in_skipped {
            bad = true;
        } else {
            match results.get(dep) {
                Some(result) => {
                    if !result.success {
                        bad = true;
                    }
                },
                None => {
                    all = false;
                },
            }
        }
        k = k + 1;
    }
    (all, bad)
}

/// The status of the workflow `name` by its dependencies alone.
pub fn check_status(
    name: &str,
    dag: &WorkflowDAG,
    results: &NameMap<WorkflowResult>,
    skipped: &Vec<String>,
) -> (status: RunStatus)
    ensures
        status == status_of(dag@, results@, texts(skipped@), name@),
{
    match dag.get_node(name) {
        None => RunStatus::Skip,
        Some(node) => {
            let (all, bad) = deps_status(node, results, skipped);
            if !all {
                RunStatus::Waiting
            } else if bad && !node.always {
                RunStatus::Skip
            } else {
                RunStatus::Ready
            }
        },
    }
}

/// What is picked from names that all differ all differs.
pub proof fn lemma_pick_apart(names: Seq<Seq<char>>, keep: spec_fn(Seq<char>) -> bool)
    requires
        names.no_duplicates(),
    ensures
        pick(names, keep).no_duplicates(),
    decreases names.len(),
{
    if names.len() > 0 {
        let front = names.drop_last();
        assert(front.no_duplicates());
        lemma_pick_apart(front, keep);
        lemma_pick_contains(front, keep, names.last());
        if front.contains(names.last()) {
            let j = choose|j: int| 0 <= j < front.len() && front[j] == names.last();
            assert(names[j] == names[names.len() - 1]);
        }
        let picked = pick(names, keep);
        assert forall|a: int, b: int|
            0 <= a < picked.len() && 0 <= b < picked.len() && a != b implies picked[a]
            != picked[b] by {
            if keep(names.last()) {
                let sub = pick(front, keep);
                if a < sub.len() && b < sub.len() {
                    assert(sub[a] != sub[b]);
                } else if a < sub.len() {
                    assert(sub.contains(sub[a]));
                } else {
                    assert(sub.contains(sub[b]));
                }
            }
        }
    }
}

/// Two lists joined hold no name twice where neither does and they
/// share none.
pub proof fn lemma_joined_apart(a: Seq<Seq<char>>, b: Seq<Seq<char>>)
    requires
        a.no_duplicates(),
        b.no_duplicates(),
        forall|name: Seq<char>| !(a.contains(name) && b.contains(name)),
    ensures
        (a + b).no_duplicates(),
{
    let all = a + b;
    assert forall|i: int, j: int| 0 <= i < all.len() && 0 <= j < all.len() && i != j implies all[i]
        != all[j] by {
        if i < a.len() && j < a.len() {
            assert(a[i] != a[j]);
        } else if i >= a.len() && j >= a.len() {
            assert(b[i - a.len()] != b[j - a.len()]);
        } else if i < a.len() {
            assert(a.contains(a[i]));
            assert(b.contains(b[j - a.len()]));
        } else {
            assert(a.contains(a[j]));
            assert(b.contains(b[i - a.len()]));
        }
    }
}

/// A name stands in two lists joined when it stands in one of them.
pub proof fn lemma_joined_contains(a: Seq<Seq<char>>, b: Seq<Seq<char>>, name: Seq<char>)
    ensures
        (a + b).contains(name) <==> a.contains(name) || b.contains(name),
{
    if (a + b).contains(name) {
        let i = choose|i: int| 0 <= i < (a + b).len() && (a + b)[i] == name;
        if i < a.len() {
            assert(a[i] == name);
        } else {
            assert(b[i - a.len()] == name);
        }
    }
    if a.contains(name) {
        let i = choose|i: int| 0 <= i < a.len() && a[i] == name;
        assert((a + b)[i] == name);
    }
    if b.contains(name) {
        let i = choose|i: int| 0 <= i < b.len() && b[i] == name;
        assert((a + b)[i + a.len()] == name);
    }
}

/// A workflow that is ready by its dependencies runs always or has had all
/// its dependencies succeed.
pub proof fn lemma_ready_justified(
    nodes: Map<Seq<char>, WorkflowNode>,
    results: Map<Seq<char>, WorkflowResult>,
    skipped: Seq<Seq<char>>,
    name: Seq<char>,
)
    requires
        status_of(nodes, results, skipped, name) == RunStatus::Ready,
    ensures
        justified(nodes, results, name),
{
    let deps = texts(nodes[name].dependencies@);
    if !nodes[name].always {
        assert forall|k: int| 0 <= k < nodes[name].dependencies.len() implies results.contains_key(
            #[trigger] deps[k],
        ) && results[deps[k]].success by {
            assert(dep_done(results, skipped, deps[k]));
            assert(!dep_bad(results, skipped, deps[k]));
        }
    }
}

/// A workflow that runs always starts as soon as all its dependencies are
/// finished or skipped, whatever their outcome and whether or not the run
/// has seen a failure: the pass that finds it so hands it out.
pub proof fn lemma_always_runs(
    nodes: Map<Seq<char>, WorkflowNode>,
    results: Map<Seq<char>, WorkflowResult>,
    skipped: Seq<Seq<char>>,
    failed: bool,
    fail_fast: bool,
    pending: Seq<Seq<char>>,
    name: Seq<char>,
)
    requires
        pending.contains(name),
        runs_always(nodes, name),
        all_done(texts(nodes[name].dependencies@), results, skipped),
    ensures
        decision(nodes, results, skipped, failed, fail_fast, name) == RunStatus::Ready,
        pick(
            pending,
            deciding(nodes, results, skipped, failed, fail_fast, RunStatus::Ready),
        ).contains(name),
{
    lemma_pick_contains(
        pending,
        deciding(nodes, results, skipped, failed, fail_fast, RunStatus::Ready),
        name,
    );
}

/// Under fail-fast, once a workflow has failed, a pass skips every pending
/// workflow that does not run always, and skips none that does.
pub proof fn lemma_fail_fast_respects_always(
    nodes: Map<Seq<char>, WorkflowNode>,
    results: Map<Seq<char>, WorkflowResult>,
    skipped: Seq<Seq<char>>,
    pending: Seq<Seq<char>>,
    name: Seq<char>,
)
    requires
        pending.contains(name),
    ensures
        !runs_always(nodes, name) ==> pick(
            pending,
            deciding(nodes, results, skipped, true, true, RunStatus::Skip),
        ).contains(name),
        runs_always(nodes, name) ==> !pick(
            pending,
            deciding(nodes, results, skipped, true, true, RunStatus::Skip),
        ).contains(name),
{
    lemma_pick_contains(
        pending,
        deciding(nodes, results, skipped, true, true, RunStatus::Skip),
        name,
    );
}

/// What a run of a directory came to.
#[derive(Debug)]
pub struct DirectoryResult {
    /// Every workflow that ran succeeded, and none was skipped.
    pub success: bool,
    pub workflows: NameMap<WorkflowResult>,
    /// The levels of the graph; a record, no barrier.
    pub execution_order: Vec<Vec<String>>,
    pub skipped: Vec<String>,
}

/// What a dispatch pass hands out.
#[derive(Debug)]
pub struct Dispatch {
    /// The workflows to start now.
    pub run: Vec<String>,
    /// The workflows that the pass skipped.
    pub skipped: Vec<String>,
}

/// The names for which a pass decides `status`.
pub open spec fn deciding(
    nodes: Map<Seq<char>, WorkflowNode>,
    results: Map<Seq<char>, WorkflowResult>,
    skipped: Seq<Seq<char>>,
    failed: bool,
    fail_fast: bool,
    status: RunStatus,
) -> spec_fn(Seq<char>) -> bool {
    |name: Seq<char>| decision(nodes, results, skipped, failed, fail_fast, name) == status
}

/// The names other than `name`.
pub open spec fn other_than(name: Seq<char>) -> spec_fn(Seq<char>) -> bool {
    |other: Seq<char>| other != name
}

/// Whether the workflow `name` runs always, or all it depends on has
/// succeeded.
pub open spec fn justified(
    nodes: Map<Seq<char>, WorkflowNode>,
    results: Map<Seq<char>, WorkflowResult>,
    name: Seq<char>,
) -> bool {
    nodes.contains_key(name) && (nodes[name].always || forall|k: int|
        0 <= k < nodes[name].dependencies.len() ==> results.contains_key(
            #[trigger] texts(nodes[name].dependencies@)[k],
        ) && results[texts(nodes[name].dependencies@)[k]].success)
}

/// The state of a run over a graph of workflows.
#[derive(Debug)]
pub struct DagRun {
    dag: WorkflowDAG,
    fail_fast: bool,
    pending: Vec<String>,
    running: Vec<String>,
    results: NameMap<WorkflowResult>,
    skipped: Vec<String>,
    failed: bool,
}

impl DagRun {
    /// The workflows of the graph by name.
    pub closed spec fn nodes(&self) -> Map<Seq<char>, WorkflowNode> {
        self.dag@
    }

    /// The levels of the graph.
    pub closed spec fn levels(&self) -> Seq<Seq<Seq<char>>> {
        self.dag.levels()
    }

    /// Whether a failure ends the run for all but the always-running.
    pub closed spec fn fail_fast(&self) -> bool {
        self.fail_fast
    }

    /// The workflows not yet decided.
    pub closed spec fn pending(&self) -> Seq<Seq<char>> {
        texts(self.pending@)
    }

    /// The workflows handed out whose result has not come.
    pub closed spec fn running(&self) -> Seq<Seq<char>> {
        texts(self.running@)
    }

    /// The results recorded so far.
    pub closed spec fn results(&self) -> Map<Seq<char>, WorkflowResult> {
        self.results@
    }

    /// The workflows skipped so far, in the order in which they were.
    pub closed spec fn skipped(&self) -> Seq<Seq<char>> {
        texts(self.skipped@)
    }

    /// Whether a workflow has finished without success.
    pub closed spec fn failed(&self) -> bool {
        self.failed
    }

    /// What holds of every state that a run reaches: each workflow of the
    /// graph is pending, running, finished or skipped; only workflows of the
    /// graph run; none is handed out twice; what was handed out runs
    /// always or had all its dependencies succeed; no workflow that runs
    /// always was skipped; what was skipped neither waits nor runs nor has
    /// a result; and no workflow waits twice or was skipped twice.
    pub open spec fn consistent(&self) -> bool {
        &&& forall|name: Seq<char>| #[trigger]
            self.nodes().contains_key(name) ==> self.pending().contains(name)
                || self.running().contains(name) || self.results().contains_key(name)
                || self.skipped().contains(name)
        &&& forall|name: Seq<char>| #[trigger]
            self.results().contains_key(name) ==> justified(self.nodes(), self.results(), name)
        &&& forall|name: Seq<char>| #[trigger]
            self.running().contains(name) ==> justified(self.nodes(), self.results(), name)
                && !self.results().contains_key(name)
        &&& forall|name: Seq<char>| #[trigger]
            self.pending().contains(name) ==> !self.results().contains_key(name)
                && !self.running().contains(name)
        &&& forall|name: Seq<char>| #[trigger]
            self.skipped().contains(name) ==> !runs_always(self.nodes(), name)
                && !self.results().contains_key(name) && !self.running().contains(name)
                && !self.pending().contains(name)
        &&& self.pending().no_duplicates()
        &&& self.skipped().no_duplicates()
    }

    /// Whether every workflow has been decided and every result has come.
    pub open spec fn finished(&self) -> bool {
        self.pending().len() == 0 && self.running().len() == 0
    }

    /// A run of `dag` in which nothing has been decided.
    pub fn new(dag: WorkflowDAG, fail_fast: bool) -> (run: Self)
        ensures
            run.nodes() == dag@,
            run.levels() == dag.levels(),
            run.fail_fast() == fail_fast,
            run.pending().len() == dag.entries().len(),
            forall|i: int| 0 <= i < dag.entries().len() ==> #[trigger] run.pending()[i] == dag.entries()[i].0,
            run.running() == Seq::<Seq<char>>::empty(),
            run.results() == Map::<Seq<char>, WorkflowResult>::empty(),
            run.skipped() == Seq::<Seq<char>>::empty(),
            !run.failed(),
            run.consistent(),
    {
        let names = dag.workflow_names();
        let levels = dag.execution_levels();
        let mut pending: Vec<String> = Vec::new();
        let mut i: usize = 0;
        while i < names.len()
            invariant
                i <= names.len(),
                pending.len() == i,
                forall|j: int| 0 <= j < i ==> (#[trigger] pending[j])@ == names[j]@,
            decreases names.len() - i,
        {
            pending.push(names[i].to_string());
            i = i + 1;
        }
        let run = DagRun {
            dag,
            fail_fast,
            pending,
            running: Vec::new(),
            results: NameMap::new(),
            skipped: Vec::new(),
            failed: false,
        };
        proof {
            assert(run.running() =~= Seq::<Seq<char>>::empty());
            assert(run.skipped() =~= Seq::<Seq<char>>::empty());
            assert forall|name: Seq<char>| #[trigger]
                run.nodes().contains_key(name) implies run.pending().contains(name) by {
                dag.lemma_entries(name);
                let i = choose|i: int|
                    0 <= i < dag.entries().len() && (#[trigger] dag.entries()[i]).0 == name;
                assert(run.pending()[i] == name);
            }
            let waiting = run.pending();
            assert forall|a: int, b: int|
                0 <= a < waiting.len() && 0 <= b < waiting.len() && a != b implies waiting[a]
                != waiting[b] by {
                assert(waiting[a] == dag.graph()[a].name);
                assert(waiting[b] == dag.graph()[b].name);
            }
        }
        run
    }

    /// One dispatch pass. Every pending workflow is decided against the
    /// results and skips as they stand when the pass begins: the ready ones
    /// are handed out, the skipped ones join the skipped, the waiting ones
    /// stay. A workflow skipped by this pass counts for its dependents from
    /// the next pass on.
    pub fn dispatch_pass(&mut self) -> (out: Dispatch)
        ensures
            final(self).nodes() == old(self).nodes(),
            final(self).levels() == old(self).levels(),
            final(self).fail_fast() == old(self).fail_fast(),
            final(self).results() == old(self).results(),
            final(self).failed() == old(self).failed(),
            texts(out.run@) == pick(
                old(self).pending(),
                deciding(
                    old(self).nodes(),
                    old(self).results(),
                    old(self).skipped(),
                    old(self).failed(),
                    old(self).fail_fast(),
                    RunStatus::Ready,
                ),
            ),
            texts(out.skipped@) == pick(
                old(self).pending(),
                deciding(
                    old(self).nodes(),
                    old(self).results(),
                    old(self).skipped(),
                    old(self).failed(),
                    old(self).fail_fast(),
                    RunStatus::Skip,
                ),
            ),
            final(self).pending() == pick(
                old(self).pending(),
                deciding(
                    old(self).nodes(),
                    old(self).results(),
                    old(self).skipped(),
                    old(self).failed(),
                    old(self).fail_fast(),
                    RunStatus::Waiting,
                ),
            ),
            final(self).running() == old(self).running() + texts(out.run@),
            final(self).skipped() == old(self).skipped() + texts(out.skipped@),
            old(self).consistent() ==> final(self).consistent(),
    {
        let ghost nodes = self.nodes();
        let ghost results = self.results();
        let ghost skips = self.skipped();
        let ghost names = self.pending();
        let ghost failed = self.failed;
        let ghost fail_fast = self.fail_fast;
        let ghost ready = deciding(nodes, results, skips, failed, fail_fast, RunStatus::Ready);
        let ghost skip = deciding(nodes, results, skips, failed, fail_fast, RunStatus::Skip);
        let ghost wait = deciding(nodes, results, skips, failed, fail_fast, RunStatus::Waiting);
        let mut to_run: Vec<String> = Vec::new();
        let mut to_skip: Vec<String> = Vec::new();
        let mut stay: Vec<String> = Vec::new();
        let mut i: usize = 0;
        assert(names.subrange(0, 0) =~= Seq::<Seq<char>>::empty());
        while i < self.pending.len()
            invariant
                i <= self.pending.len(),
                *self == *old(self),
                names == self.pending(),
                nodes == self.nodes(),
                results == self.results(),
                skips == self.skipped(),
                failed == self.failed,
                fail_fast == self.fail_fast,
                ready == deciding(nodes, results, skips, failed, fail_fast, RunStatus::Ready),
                skip == deciding(nodes, results, skips, failed, fail_fast, RunStatus::Skip),
                wait == deciding(nodes, results, skips, failed, fail_fast, RunStatus::Waiting),
                texts(to_run@) == pick(names.subrange(0, i as int), ready),
                texts(to_skip@) == pick(names.subrange(0, i as int), skip),
                texts(stay@) == pick(names.subrange(0, i as int), wait),
            decreases self.pending.len() - i,
        {
            let name = self.pending[i].as_str();
            let always = match self.dag.get_node(name) {
                Some(node) => node.always,
                None => false,
            };
            let status = if self.fail_fast && self.failed && !always {
                RunStatus::Skip
            } else {
                check_status(name, &self.dag, &self.results, &self.skipped)
            };
            proof {
                assert(names[i as int] == name@);
                assert(status == decision(nodes, results, skips, failed, fail_fast, name@));
                let part = names.subrange(0, i + 1);
                assert(part.drop_last() == names.subrange(0, i as int));
                assert(part.last() == name@);
            }
            let ghost run_before = texts(to_run@);
            let ghost skip_before = texts(to_skip@);
            let ghost stay_before = texts(stay@);
            match status {
                RunStatus::Ready => {
                    to_run.push(name.to_string());
                    assert(texts(to_run@) =~= run_before.push(name@));
                },
                RunStatus::Skip => {
                    to_skip.push(name.to_string());
                    assert(texts(to_skip@) =~= skip_before.push(name@));
                },
                RunStatus::Waiting => {
                    stay.push(name.to_string());
                    assert(texts(stay@) =~= stay_before.push(name@));
                },
            }
            i = i + 1;
        }
        assert(names.subrange(0, names.len() as int) == names);
        let ghost running_before = self.running();
        let mut running_add = copy_names(&to_run);
        let mut skipped_add = copy_names(&to_skip);
        self.pending = stay;
        self.running.append(&mut running_add);
        self.skipped.append(&mut skipped_add);
        proof {
            assert(self.running() =~= running_before + texts(to_run@));
            assert(self.skipped() =~= skips + texts(to_skip@));
            if old(self).consistent() {
                assert forall|name: Seq<char>| #[trigger]
                    self.nodes().contains_key(name) implies self.pending().contains(name)
                    || self.running().contains(name) || self.results().contains_key(name)
                    || self.skipped().contains(name) by {
                    lemma_pick_contains(names, ready, name);
                    lemma_pick_contains(names, skip, name);
                    lemma_pick_contains(names, wait, name);
                    lemma_joined_contains(running_before, texts(to_run@), name);
                    lemma_joined_contains(skips, texts(to_skip@), name);
                }
                assert forall|name: Seq<char>| #[trigger]
                    self.running().contains(name) implies justified(
                    self.nodes(),
                    self.results(),
                    name,
                ) && !self.results().contains_key(name) by {
                    lemma_joined_contains(running_before, texts(to_run@), name);
                    if !running_before.contains(name) {
                        lemma_pick_contains(names, ready, name);
                        lemma_ready_justified(nodes, results, skips, name);
                    }
                }
                assert forall|name: Seq<char>| #[trigger]
                    self.pending().contains(name) implies !self.results().contains_key(name)
                    && !self.running().contains(name) by {
                    lemma_pick_contains(names, wait, name);
                    lemma_pick_contains(names, ready, name);
                    lemma_joined_contains(running_before, texts(to_run@), name);
                }
                assert forall|name: Seq<char>| #[trigger]
                    self.skipped().contains(name) implies !runs_always(self.nodes(), name)
                    && !self.results().contains_key(name) && !self.running().contains(name)
                    && !self.pending().contains(name) by {
                    lemma_joined_contains(skips, texts(to_skip@), name);
                    lemma_joined_contains(running_before, texts(to_run@), name);
                    lemma_pick_contains(names, skip, name);
                    lemma_pick_contains(names, ready, name);
                    lemma_pick_contains(names, wait, name);
                    if skips.contains(name) {
                        assert(old(self).skipped().contains(name));
                    } else {
                        assert(old(self).pending().contains(name));
                    }
                }
                lemma_pick_apart(names, wait);
                lemma_pick_apart(names, skip);
                assert forall|name: Seq<char>|
                    !(skips.contains(name) && texts(to_skip@).contains(name)) by {
                    lemma_pick_contains(names, skip, name);
                    if skips.contains(name) {
                        assert(old(self).skipped().contains(name));
                    }
                }
                lemma_joined_apart(skips, texts(to_skip@));
            }
        }
        Dispatch { run: to_run, skipped: to_skip }
    }

    /// Records the result of a workflow that was handed out, as it is
    /// handed in. Hands back whether it was one: for any other name
    /// nothing changes. In a run that is consistent a workflow that was
    /// handed out has no result yet, so no result is written over.
    pub fn record_result(&mut self, name: &str, result: WorkflowResult) -> (known: bool)
        ensures
            known == old(self).running().contains(name@),
            final(self).nodes() == old(self).nodes(),
            final(self).levels() == old(self).levels(),
            final(self).fail_fast() == old(self).fail_fast(),
            final(self).pending() == old(self).pending(),
            final(self).skipped() == old(self).skipped(),
            known && old(self).consistent() ==> !old(self).results().contains_key(name@),
            known ==> final(self).results() == old(self).results().insert(name@, result)
                && final(self).running() == pick(old(self).running(), other_than(name@))
                && final(self).failed() == (old(self).failed() || !result.success),
            !known ==> final(self).results() == old(self).results() && final(self).running() == old(
                self,
            ).running() && final(self).failed() == old(self).failed(),
            old(self).consistent() ==> final(self).consistent(),
    {
        let ghost before = self.running();
        let ghost keep = other_than(name@);
        let mut rest: Vec<String> = Vec::new();
        let mut known = false;
        let mut i: usize = 0;
        assert(before.subrange(0, 0) =~= Seq::<Seq<char>>::empty());
        while i < self.running.len()
            invariant
                i <= self.running.len(),
                *self == *old(self),
                before == self.running(),
                keep == other_than(name@),
                texts(rest@) == pick(before.subrange(0, i as int), keep),
                known == before.subrange(0, i as int).contains(name@),
            decreases self.running.len() - i,
        {
            let ghost part = before.subrange(0, i + 1);
            let ghost rest_before = texts(rest@);
            proof {
                assert(part.drop_last() == before.subrange(0, i as int));
                assert(part.last() == self.running[i as int]@);
            }
            if crate::text::str_eq(self.running[i].as_str(), name) {
                known = true;
                assert(part[i as int] == name@);
            } else {
                rest.push(self.running[i].clone());
                assert(texts(rest@) =~= rest_before.push(part.last()));
                proof {
                    if part.contains(name@) {
                        let j = choose|j: int| 0 <= j < part.len() && part[j] == name@;
                        assert(before.subrange(0, i as int)[j] == name@);
                    }
                    if before.subrange(0, i as int).contains(name@) {
                        let j = choose|j: int|
                            0 <= j < i && before.subrange(0, i as int)[j] == name@;
                        assert(part[j] == name@);
                    }
                }
            }
            i = i + 1;
        }
        assert(before.subrange(0, before.len() as int) == before);
        if !known {
            return false;
        }
        if !result.success {
            self.failed = true;
        }
        let ghost results_before = self.results();
        self.running = rest;
        let earlier = self.results.insert(name.to_string(), result);
        proof {
            if old(self).consistent() {
                assert(!results_before.contains_key(name@));
                assert forall|other: Seq<char>| #[trigger]
                    self.nodes().contains_key(other) implies self.pending().contains(other)
                    || self.running().contains(other) || self.results().contains_key(other)
                    || self.skipped().contains(other) by {
                    lemma_pick_contains(before, keep, other);
                }
                assert forall|other: Seq<char>| #[trigger]
                    self.results().contains_key(other) implies justified(
                    self.nodes(),
                    self.results(),
                    other,
                ) by {
                    assert(justified(self.nodes(), results_before, other));
                }
                assert forall|other: Seq<char>| #[trigger]
                    self.running().contains(other) implies justified(
                    self.nodes(),
                    self.results(),
                    other,
                ) && !self.results().contains_key(other) by {
                    lemma_pick_contains(before, keep, other);
                    assert(justified(self.nodes(), results_before, other));
                }
                assert forall|other: Seq<char>| #[trigger]
                    self.pending().contains(other) implies !self.results().contains_key(other)
                    && !self.running().contains(other) by {
                    lemma_pick_contains(before, keep, other);
                    assert(old(self).pending().contains(other));
                    assert(before.contains(name@));
                    assert(!before.contains(other));
                }
                assert forall|other: Seq<char>| #[trigger]
                    self.skipped().contains(other) implies !runs_always(self.nodes(), other)
                    && !self.results().contains_key(other) && !self.running().contains(other)
                    && !self.pending().contains(other) by {
                    assert(old(self).skipped().contains(other));
                    assert(before.contains(name@));
                    lemma_pick_contains(before, keep, other);
                }
            }
        }
        true
    }

    /// What the run came to: it succeeded when every result is a success
    /// and nothing was skipped.
    pub fn finish(self) -> (r: DirectoryResult)
        ensures
            r.success == (self.skipped().len() == 0 && forall|name: Seq<char>| #[trigger]
                self.results().contains_key(name) ==> self.results()[name].success),
            r.workflows@ == self.results(),
            texts(r.skipped@) == self.skipped(),
            crate::workflow_dag::level_texts(r.execution_order@) == self.levels(),
    {
        let mut all = true;
        let mut i: usize = 0;
        let count = self.results.len();
        while i < count
            invariant
                i <= self.results.pairs().len(),
                count == self.results.pairs().len(),
                crate::namemap::distinct_names(self.results.pairs()),
                all == (forall|j: int| 0 <= j < i ==> (#[trigger] self.results.pairs()[j]).1.success),
            decreases self.results.pairs().len() - i,
        {
            if !self.results.value_at(i).success {
                all = false;
            }
            i = i + 1;
        }
        proof {
            let pairs = self.results.pairs();
            if all {
                assert forall|name: Seq<char>| #[trigger]
                    self.results().contains_key(name) implies self.results()[name].success by {
                    crate::namemap::lemma_bindings_dom(pairs, name);
                    let j = choose|j: int| 0 <= j < pairs.len() && #[trigger] pairs[j].0 == name;
                    crate::namemap::lemma_bindings_at(pairs, j);
                }
            } else {
                let j = choose|j: int| 0 <= j < pairs.len() && !(#[trigger] pairs[j]).1.success;
                crate::namemap::lemma_bindings_at(pairs, j);
                assert(self.results().contains_key(pairs[j].0));
            }
        }
        let success = all && self.skipped.len() == 0;
        let mut execution_order: Vec<Vec<String>> = Vec::new();
        let levels = self.dag.execution_levels();
        let mut k: usize = 0;
        while k < levels.len()
            invariant
                k <= levels.len(),
                execution_order.len() == k,
                forall|a: int|
                    0 <= a < k ==> texts((#[trigger] execution_order[a])@) == texts(levels[a]@),
            decreases levels.len() - k,
        {
            execution_order.push(copy_names(&levels[k]));
            k = k + 1;
        }
        assert(crate::workflow_dag::level_texts(execution_order@)
            =~= crate::workflow_dag::level_texts(levels@));
        DirectoryResult {
            success,
            workflows: self.results,
            execution_order,
            skipped: self.skipped,
        }
    }

    /// A workflow that runs always is never skipped, whatever became of
    /// what it depends on and whether or not the run fails fast.
    pub proof fn lemma_always_is_not_skipped(&self, name: Seq<char>)
        requires
            self.consistent(),
            runs_always(self.nodes(), name),
        ensures
            !self.skipped().contains(name),
    {
    }

    /// A workflow that runs always has run when the run is finished: it
    /// has a result, and it was not skipped.
    pub proof fn lemma_always_has_run(&self, name: Seq<char>)
        requires
            self.consistent(),
            self.finished(),
            runs_always(self.nodes(), name),
        ensures
            self.results().contains_key(name),
            !self.skipped().contains(name),
    {
        assert(self.nodes().contains_key(name));
        if self.pending().contains(name) {
            let i = choose|i: int| 0 <= i < self.pending().len() && self.pending()[i] == name;
        }
        if self.running().contains(name) {
            let i = choose|i: int| 0 <= i < self.running().len() && self.running()[i] == name;
        }
    }

    /// When the run is finished, each workflow of the graph has a result
    /// or was skipped, and never both.
    pub proof fn lemma_run_or_skipped(&self, name: Seq<char>)
        requires
            self.consistent(),
            self.finished(),
            self.nodes().contains_key(name),
        ensures
            self.results().contains_key(name) != self.skipped().contains(name),
    {
        if self.pending().contains(name) {
            let i = choose|i: int| 0 <= i < self.pending().len() && self.pending()[i] == name;
        }
        if self.running().contains(name) {
            let i = choose|i: int| 0 <= i < self.running().len() && self.running()[i] == name;
        }
    }

    /// The skip cascade. In a finished run, let `chain` begin with a
    /// workflow that failed, each later workflow of it depending on the one
    /// before, and none of the later ones running always. Then every
    /// workflow of `chain` after the first was skipped, and none of them ran.
    pub proof fn lemma_skip_cascade(&self, chain: Seq<Seq<char>>)
        requires
            self.consistent(),
            self.finished(),
            chain.len() >= 1,
            self.results().contains_key(chain[0]),
            !self.results()[chain[0]].success,
            forall|k: int|
                1 <= k < chain.len() ==> self.nodes().contains_key(#[trigger] chain[k])
                    && !self.nodes()[chain[k]].always && texts(
                    self.nodes()[chain[k]].dependencies@,
                ).contains(chain[k - 1]),
        ensures
            forall|k: int|
                1 <= k < chain.len() ==> self.skipped().contains(#[trigger] chain[k])
                    && !self.results().contains_key(chain[k]),
        decreases chain.len(),
    {
        if chain.len() >= 2 {
            let front = chain.drop_last();
            assert forall|k: int| 1 <= k < front.len() implies self.nodes().contains_key(
                #[trigger] front[k],
            ) && !self.nodes()[front[k]].always && texts(
                self.nodes()[front[k]].dependencies@,
            ).contains(front[k - 1]) by {
                assert(front[k] == chain[k]);
                assert(front[k - 1] == chain[k - 1]);
            }
            self.lemma_skip_cascade(front);
            let last = chain[chain.len() - 1];
            let before = chain[chain.len() - 2];
            let deps = texts(self.nodes()[last].dependencies@);
            assert(self.nodes().contains_key(last));
            // the one before has no successful result
            if chain.len() == 2 {
                assert(before == chain[0]);
            } else {
                assert(front[front.len() - 1] == before);
                assert(!self.results().contains_key(before));
            }
            if self.results().contains_key(last) {
                assert(justified(self.nodes(), self.results(), last));
                let d = choose|d: int| 0 <= d < deps.len() && deps[d] == before;
                assert(self.results().contains_key(deps[d]) && self.results()[deps[d]].success);
            }
            if self.pending().contains(last) {
                let i = choose|i: int| 0 <= i < self.pending().len() && self.pending()[i] == last;
            }
            if self.running().contains(last) {
                let i = choose|i: int| 0 <= i < self.running().len() && self.running()[i] == last;
            }
            assert forall|k: int| 1 <= k < chain.len() implies self.skipped().contains(
                #[trigger] chain[k],
            ) && !self.results().contains_key(chain[k]) by {
                if k < chain.len() - 1 {
                    assert(front[k] == chain[k]);
                }
            }
        }
    }

    /// The graph that is run.
    pub fn dag(&self) -> (dag: &WorkflowDAG)
        ensures
            dag@ == self.nodes(),
            dag.levels() == self.levels(),
    {
        &self.dag
    }

    /// Whether every workflow has been decided and every result has come.
    pub fn is_finished(&self) -> (b: bool)
        ensures
            b == self.finished(),
    {
        self.pending.len() == 0 && self.running.len() == 0
    }

    /// Whether a workflow has finished without success.
    pub fn has_failed(&self) -> (b: bool)
        ensures
            b == self.failed(),
    {
        self.failed
    }
}

} // verus!
