//! Running one workflow: the order of its jobs, which of them run, where
//! each step goes, and what a job and a workflow come to.

use vstd::prelude::*;
use crate::error::ExecutorError;
use crate::graph::{
    acyclic, apart, closed, closing, cycle_walk, depth_first, distinct, find_place, has_name,
    holds, in_range, lemma_cycle_walk_not_acyclic, lists_all, needs, placed_before, ranked,
    stands_before, topological, wants_place, Node,
};
use crate::action::{compatible, parsed, platform_of, ParsedAction};
use crate::context::{merged, with_output, ContextView, ExecutionContext};
use crate::error::ExpressionFault;
use crate::expressions::{condition_holds, evaluate_condition};
use crate::job::{Job, Step, Workflow};
use crate::namemap::{as_nested_text, as_text, NameMap};
use crate::bridge::calls::{clock_request, clock_tree, integer_tree};
use crate::bridge::{supported, supports, Operation};
use crate::json::JsonTree;
use crate::rpc::{RequestIds, RpcRequest};
use crate::mock_clock::{
    after, duration_nanos, instant_text, now_of, parse_duration, parse_time, parse_timezone,
    rfc3339_reading, rfc3339_writing, time_value, timezone_offset, ClockModel, ClockOp,
    new_clock, ClockSyncState, Instant, MockClock,
};
use crate::platform::{Platform, PlatformsConfig};
use crate::state_manager::SharedStateManager;
use crate::result::{JobResult, StepResult, WorkflowResult};
use crate::text::{
    decimal, decimal_text, is_word, join2, join3, signed_decimal, signed_text, texts, to_chars,
    trim_text,
};
use crate::workflow_dag::first_missing;

verus! {

/// The graph that the needs of the jobs of a workflow describe.
pub open spec fn job_graph(jobs: Seq<(Seq<char>, Job)>) -> Seq<Node> {
    Seq::new(jobs.len(), |i: int| Node { name: jobs[i].0, needs: texts(jobs[i].1.needs@) })
}

/// How the places in `wants` stand for the needs of `g`.
pub open spec fn wired_jobs(g: Seq<Node>, wants: Seq<Vec<usize>>) -> bool {
    &&& wants.len() == g.len()
    &&& forall|i: int| 0 <= i < g.len() ==> (#[trigger] wants[i]).len() == g[i].needs.len()
    &&& forall|i: int, d: int|
        0 <= i < g.len() && 0 <= d < wants[i].len() ==> (#[trigger] wants[i][d]) < g.len()
            && g[wants[i][d] as int].name == g[i].needs[d]
}

/// The names of the places of `walk`.
pub open spec fn walk_names(g: Seq<Node>, walk: Seq<usize>) -> Seq<Seq<char>> {
    Seq::new(walk.len(), |p: int| g[walk[p] as int].name)
}

/// Whether `way` names a walk along needs that comes back to itself: each
/// job of it needs the next, the last needs a job of the way, and no job
/// stands on the way twice.
pub open spec fn circle(g: Seq<Node>, way: Seq<Seq<char>>) -> bool {
    &&& way.no_duplicates()
    &&& exists|walk: Seq<int>|
        cycle_walk(g, walk) && way.len() == walk.len() && forall|p: int|
            0 <= p < walk.len() ==> #[trigger] way[p] == g[walk[p]].name
}

proof fn lemma_wants_needs(g: Seq<Node>, wants: Seq<Vec<usize>>, a: int, b: int)
    requires
        wired_jobs(g, wants),
        0 <= a < g.len(),
        wants_place(wants, a, b),
    ensures
        needs(g, a, b),
{
    let d = choose|d: int| 0 <= d < wants[a].len() && (#[trigger] wants[a][d]) == b;
    assert(g[a].needs[d] == g[b].name);
}

proof fn lemma_closing_circle(g: Seq<Node>, wants: Seq<Vec<usize>>, path: Seq<usize>)
    requires
        wired_jobs(g, wants),
        distinct(g),
        closing(wants, path),
        apart(path),
    ensures
        circle(g, walk_names(g, path)),
        !acyclic(g),
{
    let walk = Seq::new(path.len(), |p: int| path[p] as int);
    assert forall|k: int| 0 <= k < walk.len() - 1 implies needs(g, #[trigger] walk[k], walk[k + 1]) by {
        assert(wants_place(wants, path[k] as int, path[k + 1] as int));
        lemma_wants_needs(g, wants, path[k] as int, path[k + 1] as int);
    }
    let m = choose|m: int|
        0 <= m < path.len() && wants_place(wants, path[path.len() - 1] as int, (#[trigger] path[m]) as int);
    lemma_wants_needs(g, wants, path[path.len() - 1] as int, path[m] as int);
    assert(needs(g, walk[walk.len() - 1], walk[m]));
    assert(cycle_walk(g, walk));
    lemma_cycle_walk_not_acyclic(g, walk);
    let way = walk_names(g, path);
    assert forall|p: int| 0 <= p < walk.len() implies #[trigger] way[p] == g[walk[p]].name by {}
    assert forall|p: int, q: int| 0 <= p < way.len() && 0 <= q < way.len() && p != q implies way[p]
        != way[q] by {
        assert(path[p] != path[q]);
        assert(way[p] == g[path[p] as int].name);
        assert(way[q] == g[path[q] as int].name);
    }
    assert(exists|walk: Seq<int>|
        cycle_walk(g, walk) && way.len() == walk.len() && forall|p: int|
            0 <= p < walk.len() ==> #[trigger] way[p] == g[walk[p]].name) by {
        assert(cycle_walk(g, walk) && way.len() == walk.len());
    }
}

/// The place at which `order` holds `i`.
spec fn spot(order: Seq<usize>, i: int) -> nat {
    (choose|p: int| 0 <= p < order.len() && #[trigger] order[p] == i) as nat
}

proof fn lemma_order_topological(g: Seq<Node>, wants: Seq<Vec<usize>>, order: Seq<usize>)
    requires
        wired_jobs(g, wants),
        distinct(g),
        order.len() == g.len(),
        lists_all(order, g.len() as int),
        forall|q: int, r: int|
            0 <= q < order.len() && 0 <= r < order.len() && q != r ==> (#[trigger] order[q]) != (
            #[trigger] order[r]),
        forall|q: int, d: int|
            0 <= q < order.len() && 0 <= d < wants[order[q] as int].len() ==> placed_before(
                order,
                (#[trigger] wants[order[q] as int][d]) as int,
                q,
            ),
    ensures
        acyclic(g),
        topological(g, walk_names(g, order)),
{
    let named = walk_names(g, order);
    let r = |i: int| spot(order, i);
    assert forall|a: int, b: int| #[trigger] needs(g, a, b) implies r(b) < r(a) by {
        let d = choose|d: int| 0 <= d < g[a].needs.len() && g[a].needs[d] == g[b].name;
        let w = wants[a][d] as int;
        assert(g[w].name == g[b].name);
        assert(w == b);
        assert(holds(order, a));
        let q = spot(order, a) as int;
        assert(order[q] == a);
        assert(placed_before(order, wants[order[q] as int][d] as int, q));
        let e = choose|e: int| 0 <= e < q && e < order.len() && (#[trigger] order[e]) == b;
        assert(holds(order, b));
        let sb = spot(order, b) as int;
        assert(order[sb] == b);
        assert(sb == e);
    }
    assert(ranked(g, r));
    assert forall|p: int, q: int| 0 <= p < named.len() && 0 <= q < named.len() && p != q implies named[p]
        != named[q] by {
        assert(order[p] != order[q]);
    }
    assert forall|p: int| 0 <= p < named.len() implies has_name(g, #[trigger] named[p]) by {
        assert(g[order[p] as int].name == named[p]);
    }
    assert forall|i: int| 0 <= i < g.len() implies named.contains((#[trigger] g[i]).name) by {
        assert(holds(order, i));
        let p = choose|p: int| 0 <= p < order.len() && #[trigger] order[p] == i;
        assert(named[p] == g[i].name);
    }
    assert forall|p: int, i: int, k: int|
        0 <= p < named.len() && 0 <= i < g.len() && g[i].name == #[trigger] named[p] && 0 <= k
            < g[i].needs.len() implies stands_before(named, #[trigger] g[i].needs[k], p) by {
        assert(g[order[p] as int].name == g[i].name);
        assert(order[p] == i);
        assert(placed_before(order, wants[order[p] as int][k] as int, p));
        let e = choose|e: int|
            0 <= e < p && e < order.len() && (#[trigger] order[e]) == wants[i][k] as int;
        assert(named[e] == g[wants[i][k] as int].name);
    }
}

/// The order in which the jobs of a workflow run: each job after all the
/// jobs it needs. The walk goes from each job in turn, in the order of the
/// workflow, first through all that the job needs.
///
/// A need that names no job of the workflow is refused first; else needs
/// that run in a circle are refused, with the way on which the walk stood
/// when it came back to a job of that way.
pub fn topological_sort(jobs: &NameMap<Job>) -> (r: Result<Vec<String>, ExecutorError>)
    ensures
        match r {
            Ok(order) => closed(job_graph(jobs.pairs())) && acyclic(job_graph(jobs.pairs()))
                && topological(job_graph(jobs.pairs()), texts(order@)),
            Err(ExecutorError::JobNotFound(name)) => exists|i: int, k: int|
                first_missing(job_graph(jobs.pairs()), i, k) && (#[trigger] job_graph(
                    jobs.pairs(),
                )[i].needs[k]) == name@,
            Err(ExecutorError::CircularDependency(way)) => closed(job_graph(jobs.pairs()))
                && !acyclic(job_graph(jobs.pairs())) && circle(
                job_graph(jobs.pairs()),
                texts(way@),
            ),
            Err(other) => false,
        },
{
    let ghost g = job_graph(jobs.pairs());
    let n = jobs.len();
    let mut names: Vec<String> = Vec::new();
    let mut i: usize = 0;
    while i < n
        invariant
            i <= n,
            n == jobs.pairs().len(),
            names.len() == i,
            forall|j: int| 0 <= j < i ==> (#[trigger] names[j])@ == jobs.pairs()[j].0,
        decreases n - i,
    {
        names.push(jobs.name_at(i).clone());
        i = i + 1;
    }
    proof {
        assert forall|a: int, b: int|
            0 <= a < g.len() && 0 <= b < g.len() && a != b implies (#[trigger] g[a]).name != (
        #[trigger] g[b]).name by {
            assert(jobs.pairs()[a].0 != jobs.pairs()[b].0);
        }
    }
    let mut wants: Vec<Vec<usize>> = Vec::new();
    let mut i: usize = 0;
    while i < n
        invariant
            i <= n,
            n == jobs.pairs().len(),
            names.len() == n,
            g == job_graph(jobs.pairs()),
            forall|j: int| 0 <= j < n ==> (#[trigger] names[j])@ == jobs.pairs()[j].0,
            wants.len() == i,
            forall|a: int| 0 <= a < i ==> (#[trigger] wants[a]).len() == g[a].needs.len(),
            forall|a: int, d: int|
                0 <= a < i && 0 <= d < wants[a].len() ==> (#[trigger] wants[a][d]) < n
                    && g[wants[a][d] as int].name == g[a].needs[d],
        decreases n - i,
    {
        let deps = &jobs.value_at(i).needs;
        let mut row: Vec<usize> = Vec::new();
        let mut k: usize = 0;
        while k < deps.len()
            invariant
                k <= deps.len(),
                i < n,
                n == jobs.pairs().len(),
                names.len() == n,
                g == job_graph(jobs.pairs()),
                deps == &jobs.pairs()[i as int].1.needs,
                forall|j: int| 0 <= j < n ==> (#[trigger] names[j])@ == jobs.pairs()[j].0,
                row.len() == k,
                wants.len() == i,
                forall|a: int, d: int|
                    0 <= a < i && 0 <= d < wants[a].len() ==> (#[trigger] wants[a][d]) < n
                        && g[wants[a][d] as int].name == g[a].needs[d],
                forall|a: int| 0 <= a < i ==> (#[trigger] wants[a]).len() == g[a].needs.len(),
                forall|d: int|
                    0 <= d < k ==> (#[trigger] row[d]) < n && g[row[d] as int].name
                        == g[i as int].needs[d],
            decreases deps.len() - k,
        {
            match find_place(&names, deps[k].as_str()) {
                Some(j) => {
                    row.push(j);
                },
                None => {
                    proof {
                        let gi = i as int;
                        let gk = k as int;
                        assert(g[gi].needs[gk] == deps[gk]@);
                        assert(!has_name(g, g[gi].needs[gk])) by {
                            if has_name(g, g[gi].needs[gk]) {
                                let j = choose|j: int|
                                    0 <= j < g.len() && (#[trigger] g[j]).name == g[gi].needs[gk];
                                assert(names[j]@ == deps[gk]@);
                            }
                        }
                        assert forall|e: int| 0 <= e < gk implies has_name(
                            g,
                            #[trigger] g[gi].needs[e],
                        ) by {
                            assert(g[row[e] as int].name == g[gi].needs[e]);
                        }
                        assert forall|a: int, e: int|
                            0 <= a < gi && 0 <= e < g[a].needs.len() implies has_name(
                            g,
                            #[trigger] g[a].needs[e],
                        ) by {
                            assert(g[wants[a][e] as int].name == g[a].needs[e]);
                        }
                        assert(first_missing(g, gi, gk));
                    }
                    return Err(ExecutorError::JobNotFound(deps[k].clone()));
                },
            }
            k = k + 1;
        }
        wants.push(row);
        i = i + 1;
    }
    proof {
        assert(wired_jobs(g, wants@));
        assert(in_range(wants@));
        assert forall|a: int, e: int|
            0 <= a < g.len() && 0 <= e < g[a].needs.len() implies has_name(
            g,
            #[trigger] g[a].needs[e],
        ) by {
            assert(g[wants[a][e] as int].name == g[a].needs[e]);
        }
        assert(closed(g));
    }
    match depth_first(&wants) {
        Ok(order) => {
            let mut sorted: Vec<String> = Vec::new();
            let mut p: usize = 0;
            while p < order.len()
                invariant
                    p <= order.len(),
                    names.len() == n,
                    n == g.len(),
                    lists_all(order@, n as int),
                    sorted.len() == p,
                    forall|j: int| 0 <= j < n ==> (#[trigger] names[j])@ == g[j].name,
                    forall|q: int| 0 <= q < p ==> (#[trigger] sorted[q])@ == g[order[q] as int].name,
                decreases order.len() - p,
            {
                sorted.push(names[order[p]].clone());
                p = p + 1;
            }
            proof {
                lemma_order_topological(g, wants@, order@);
                assert(texts(sorted@) =~= walk_names(g, order@));
            }
            Ok(sorted)
        },
        Err(path) => {
            let mut way: Vec<String> = Vec::new();
            let mut p: usize = 0;
            while p < path.len()
                invariant
                    p <= path.len(),
                    names.len() == n,
                    n == g.len(),
                    wants.len() == n,
                    closing(wants@, path@),
                    apart(path@),
                    way.len() == p,
                    forall|j: int| 0 <= j < n ==> (#[trigger] names[j])@ == g[j].name,
                    forall|q: int| 0 <= q < p ==> (#[trigger] way[q])@ == g[path[q] as int].name,
                decreases path.len() - p,
            {
                way.push(names[path[p]].clone());
                p = p + 1;
            }
            proof {
                lemma_closing_circle(g, wants@, path@);
                assert(texts(way@) =~= walk_names(g, path@));
            }
            Err(ExecutorError::CircularDependency(way))
        },
    }
}

/// The phase of a run that a step belongs to. The clock moves on by
/// itself after the main steps only.
#[derive(Debug, Clone, Copy, PartialEq, Eq, Structural)]
pub enum ExecutionPhase {
    /// Hooks before the main steps.
    Before,
    /// The main steps.
    Steps,
    /// Hooks after the main steps.
    After,
}

/// The first of two optional values that is there.
pub open spec fn first_of<T>(a: Option<T>, b: Option<T>) -> Option<T> {
    if a is Some {
        a
    } else {
        b
    }
}

/// The platform that a category of `uses` needs, where `uses` parses and
/// its category needs one.
pub open spec fn inferred_platform(uses: Seq<char>) -> Option<Platform> {
    match parsed(uses) {
        Ok((category, _)) => platform_of(category),
        Err(_) => None,
    }
}

/// The platform of a step: the first that is named of the step's own, the
/// job's and the workflow's; else the one that the category of the action
/// needs; else the browser.
pub open spec fn step_platform(
    step: Step,
    job: Job,
    workflow_platform: Option<Platform>,
) -> Platform {
    match first_of(first_of(step.platform, job.platform), workflow_platform) {
        Some(p) => p,
        None => match inferred_platform(step.uses@) {
            Some(p) => p,
            None => Platform::Playwright,
        },
    }
}

/// The platform of a job where its steps name none.
pub fn get_job_platform(job: &Job, workflow_platform: &Option<Platform>) -> (p: Option<Platform>)
    ensures
        p == first_of(job.platform, *workflow_platform),
{
    match job.platform {
        Some(p) => Some(p),
        None => *workflow_platform,
    }
}

/// The platform of a step.
pub fn resolve_step_platform(step: &Step, job: &Job, workflow_platform: &Option<Platform>) -> (p:
    Platform)
    ensures
        p == step_platform(*step, *job, *workflow_platform),
{
    if let Some(p) = step.platform {
        return p;
    }
    if let Some(p) = job.platform {
        return p;
    }
    if let Some(p) = *workflow_platform {
        return p;
    }
    match ParsedAction::parse(step.uses.as_str()) {
        Ok(action) => match action.category.infer_platform() {
            Some(p) => p,
            None => Platform::Playwright,
        },
        Err(_) => Platform::Playwright,
    }
}

/// How a platform is named in messages.
pub open spec fn platform_name(platform: Platform) -> Seq<char> {
    match platform {
        Platform::Playwright => "Playwright"@,
        Platform::Nodejs => "Nodejs"@,
        Platform::Rust => "Rust"@,
        Platform::Python => "Python"@,
        Platform::Java => "Java"@,
        Platform::Go => "Go"@,
        Platform::Web => "Web"@,
    }
}

/// How a platform is named in messages.
pub fn name_of_platform(platform: Platform) -> (name: &'static str)
    ensures
        name@ == platform_name(platform),
{
    match platform {
        Platform::Playwright => "Playwright",
        Platform::Nodejs => "Nodejs",
        Platform::Rust => "Rust",
        Platform::Python => "Python",
        Platform::Java => "Java",
        Platform::Go => "Go",
        Platform::Web => "Web",
    }
}

/// Where a step goes.
#[derive(Debug)]
pub enum StepRoute {
    /// To the engine itself: the action works on every platform, and no
    /// platform is named.
    Agnostic(ParsedAction),
    /// To the bridge of a platform.
    OnPlatform(Platform, ParsedAction),
}

/// Where a main step goes: to the engine itself where its action works on
/// every platform and neither the step nor the job nor the workflow names
/// a platform; else to the platform of the step. A `uses` that does not
/// parse is an unknown action.
pub fn route_step(step: &Step, job: &Job, workflow_platform: &Option<Platform>) -> (r: Result<
    StepRoute,
    ExecutorError,
>)
    ensures
        match parsed(step.uses@) {
            Err(message) => r matches Err(ExecutorError::UnknownAction(m)) && m@ == message,
            Ok((category, name)) => if platform_of(category) is None && first_of(
                first_of(step.platform, job.platform),
                *workflow_platform,
            ) is None {
                r matches Ok(StepRoute::Agnostic(action)) && action.category == category
                    && action.action@ == name
            } else {
                r matches Ok(StepRoute::OnPlatform(platform, action)) && platform == step_platform(
                    *step,
                    *job,
                    *workflow_platform,
                ) && action.category == category && action.action@ == name
            },
        },
{
    let action = match ParsedAction::parse(step.uses.as_str()) {
        Ok(action) => action,
        Err(message) => {
            return Err(ExecutorError::UnknownAction(message));
        },
    };
    if action.category.is_platform_agnostic() && step.platform.is_none() && job.platform.is_none()
        && workflow_platform.is_none() {
        Ok(StepRoute::Agnostic(action))
    } else {
        let platform = resolve_step_platform(step, job, workflow_platform);
        Ok(StepRoute::OnPlatform(platform, action))
    }
}

/// Where a hook step goes: to the engine itself where its action works on
/// every platform and the step names no platform; else to the platform
/// that the step names, or the workflow, or the category of the action, or
/// to the browser.
pub fn route_hook(step: &Step, workflow_platform: &Option<Platform>) -> (r: Result<
    StepRoute,
    ExecutorError,
>)
    ensures
        match parsed(step.uses@) {
            Err(message) => r matches Err(ExecutorError::UnknownAction(m)) && m@ == message,
            Ok((category, name)) => if platform_of(category) is None && step.platform is None {
                r matches Ok(StepRoute::Agnostic(action)) && action.category == category
                    && action.action@ == name
            } else {
                r matches Ok(StepRoute::OnPlatform(platform, action)) && platform == (match first_of(
                    step.platform,
                    *workflow_platform,
                ) {
                    Some(p) => p,
                    None => match platform_of(category) {
                        Some(p) => p,
                        None => Platform::Playwright,
                    },
                }) && action.category == category && action.action@ == name
            },
        },
{
    let action = match ParsedAction::parse(step.uses.as_str()) {
        Ok(action) => action,
        Err(message) => {
            return Err(ExecutorError::UnknownAction(message));
        },
    };
    if action.category.is_platform_agnostic() && step.platform.is_none() {
        return Ok(StepRoute::Agnostic(action));
    }
    let platform = match step.platform {
        Some(p) => p,
        None => match *workflow_platform {
            Some(p) => p,
            None => match action.category.infer_platform() {
                Some(p) => p,
                None => Platform::Playwright,
            },
        },
    };
    Ok(StepRoute::OnPlatform(platform, action))
}

/// How the refusal of an action on a platform reads.
pub open spec fn mismatch_text(uses: Seq<char>, platform: Platform) -> Seq<char> {
    "Action '"@ + uses + "' is not compatible with "@ + platform_name(platform) + " platform"@
}

/// Whether the action of a step can run on the platform it was routed to.
/// An action that cannot is a platform mismatch, which fails the step.
pub fn admit_step(step: &Step, action: &ParsedAction, platform: &Platform) -> (r: Result<
    (),
    ExecutorError,
>)
    ensures
        match r {
            Ok(_) => compatible(action.category, *platform),
            Err(e) => !compatible(action.category, *platform) && (e matches ExecutorError::PlatformMismatch(
                m,
            ) && m@ == mismatch_text(step.uses@, *platform)),
        },
{
    if action.is_compatible_with(platform) {
        Ok(())
    } else {
        let head = join3("Action '", step.uses.as_str(), "' is not compatible with ");
        Err(
            ExecutorError::PlatformMismatch(
                join3(head.as_str(), name_of_platform(*platform), " platform"),
            ),
        )
    }
}

/// Which jobs have a result, and whether it is a success.
pub open spec fn successes(results: Map<Seq<char>, JobResult>) -> Map<Seq<char>, bool> {
    Map::new(|name: Seq<char>| results.contains_key(name), |name: Seq<char>| results[name].success)
}

/// Whether no job that `job` needs has failed: each of them has a
/// result that is a success, or no result. A job that was passed over
/// because its condition did not hold has no result, and stands in
/// nobody's way.
pub open spec fn needs_met(job: Job, done: Map<Seq<char>, bool>) -> bool {
    forall|k: int|
        0 <= k < job.needs.len() ==> (done.contains_key(#[trigger] texts(job.needs@)[k])
            ==> done[texts(job.needs@)[k]])
}

/// Whether no job that `job` needs has a result that is a failure.
pub fn deps_succeeded(job: &Job, results: &NameMap<JobResult>) -> (ok: bool)
    ensures
        ok == needs_met(*job, successes(results@)),
{
    let mut k: usize = 0;
    while k < job.needs.len()
        invariant
            k <= job.needs.len(),
            forall|e: int|
                0 <= e < k ==> (results@.contains_key(#[trigger] texts(job.needs@)[e])
                    ==> results@[texts(job.needs@)[e]].success),
        decreases job.needs.len() - k,
    {
        assert(texts(job.needs@)[k as int] == job.needs[k as int]@);
        match results.get(job.needs[k].as_str()) {
            Some(result) => {
                if !result.success {
                    return false;
                }
            },
            None => {},
        }
        k = k + 1;
    }
    true
}

/// What is decided for a job when its turn comes.
#[derive(Debug, Clone, Copy, PartialEq, Eq, Structural)]
pub enum JobGate {
    /// A job it needs has failed: the job fails without running.
    FailedDependencies,
    /// Its condition does not hold: the job is passed over in silence.
    ConditionFalse,
    /// It runs.
    Run,
}

/// What is decided for a job, or the fault of its condition.
pub open spec fn gate_of(job: Job, done: Map<Seq<char>, bool>, ctx: ContextView) -> Result<
    JobGate,
    ExpressionFault,
> {
    if !needs_met(job, done) && !job.continue_on_error {
        Ok(JobGate::FailedDependencies)
    } else {
        match job.condition {
            None => Ok(JobGate::Run),
            Some(condition) => match condition_holds(condition@, ctx) {
                Err(fault) => Err(fault),
                Ok(true) => Ok(JobGate::Run),
                Ok(false) => Ok(JobGate::ConditionFalse),
            },
        }
    }
}

/// What is decided for a job when its turn comes: it fails without
/// running where a job it needs has a result that is a failure, unless
/// it continues on error; it is passed over where its condition does not
/// hold; else it runs. A job it needs that has no result does not stop
/// it.
pub fn job_gate(job: &Job, results: &NameMap<JobResult>, ctx: &ExecutionContext) -> (r: Result<
    JobGate,
    ExecutorError,
>)
    ensures
        match gate_of(*job, successes(results@), ctx@) {
            Ok(gate) => r == Ok::<JobGate, ExecutorError>(gate),
            Err(fault) => r matches Err(ExecutorError::ExpressionError(e)) && e@ == fault,
        },
{
    if !deps_succeeded(job, results) && !job.continue_on_error {
        return Ok(JobGate::FailedDependencies);
    }
    match &job.condition {
        None => Ok(JobGate::Run),
        Some(condition) => match evaluate_condition(condition.as_str(), ctx) {
            Err(e) => Err(ExecutorError::ExpressionError(e)),
            Ok(true) => Ok(JobGate::Run),
            Ok(false) => Ok(JobGate::ConditionFalse),
        },
    }
}

/// Whether `r` is the result of a job that did not run: it is a
/// failure, without outputs and without steps.
pub open spec fn unrun(r: JobResult) -> bool {
    !r.success && r.outputs@ == Map::<Seq<char>, String>::empty() && r.steps@ == Seq::<
        StepResult,
    >::empty()
}

/// Whether `after` holds every result of `before` as it was, and each
/// result that it holds besides is that of a job that did not run.
pub open spec fn grown_by_unrun(
    before: Map<Seq<char>, JobResult>,
    after: Map<Seq<char>, JobResult>,
) -> bool {
    &&& forall|name: Seq<char>| #[trigger]
        before.contains_key(name) ==> after.contains_key(name) && after[name] == before[name]
    &&& forall|name: Seq<char>| #[trigger]
        after.contains_key(name) && !before.contains_key(name) ==> unrun(after[name])
}

/// The result of a job that did not run its steps.
pub fn failed_job() -> (r: JobResult)
    ensures
        unrun(r),
        !r.success,
        r.outputs@ == Map::<Seq<char>, String>::empty(),
        r.steps@ == Seq::<StepResult>::empty(),
{
    JobResult { success: false, outputs: NameMap::new(), steps: Vec::new() }
}

/// The result of a step that ended in an error.
pub fn failed_step(error: &ExecutorError) -> (r: StepResult)
    ensures
        !r.success,
        r.outputs@ == Map::<Seq<char>, String>::empty(),
        r.error matches Some(text) && text@ == error.text(),
        r.response is None,
{
    StepResult { success: false, outputs: NameMap::new(), error: Some(error.message()), response: None }
}

/// Whether the hooks of a scope go on after one of them has ended. The
/// hooks before a scope end with the first that does not succeed, and
/// the scope ends with them; the hooks after a scope all run, whatever
/// comes of them.
pub fn hooks_go_on(phase: ExecutionPhase, succeeded: bool) -> (go: bool)
    ensures
        go == (phase == ExecutionPhase::After || succeeded),
{
    matches!(phase, ExecutionPhase::After) || succeeded
}

/// How the failure of a step that ran past its deadline reads.
pub open spec fn deadline_text(ms: u64) -> Seq<char> {
    "Step timed out after "@ + decimal_text(ms as nat) + "ms"@
}

/// The deadline of a step, in milliseconds, where it has one.
pub fn step_deadline(step: &Step) -> (ms: Option<u64>)
    ensures
        ms == step.timeout,
{
    step.timeout
}

/// The error of a step that was not done `ms` milliseconds after it
/// began, which was its deadline: the step has failed.
pub fn deadline_passed(ms: u64) -> (e: ExecutorError)
    ensures
        e matches ExecutorError::StepFailed(m) && m@ == deadline_text(ms),
{
    let shown = decimal(ms);
    ExecutorError::StepFailed(join3("Step timed out after ", shown.as_str(), "ms"))
}

/// The index of the first step at or after `cursor` whose condition
/// holds or which has none; the number of steps where there is no such
/// step; or the fault of the first condition that does not evaluate.
pub open spec fn next_runnable(steps: Seq<Step>, cursor: int, ctx: ContextView) -> Result<
    int,
    ExpressionFault,
>
    decreases steps.len() - cursor,
{
    if cursor < 0 || cursor >= steps.len() {
        Ok(steps.len() as int)
    } else {
        match steps[cursor].condition {
            None => Ok(cursor),
            Some(condition) => match condition_holds(condition@, ctx) {
                Err(fault) => Err(fault),
                Ok(true) => Ok(cursor),
                Ok(false) => next_runnable(steps, cursor + 1, ctx),
            },
        }
    }
}

/// `table` after every output of `pairs` was set for `id`, in order.
pub open spec fn with_outputs(
    table: Map<Seq<char>, Map<Seq<char>, Seq<char>>>,
    id: Seq<char>,
    pairs: Seq<(Seq<char>, String)>,
) -> Map<Seq<char>, Map<Seq<char>, Seq<char>>>
    decreases pairs.len(),
{
    if pairs.len() == 0 {
        table
    } else {
        with_output(
            with_outputs(table, id, pairs.drop_last()),
            id,
            pairs.last().0,
            pairs.last().1@,
        )
    }
}

/// What a job has done so far.
#[derive(Debug)]
pub struct JobRun {
    cursor: usize,
    steps: Vec<StepResult>,
    all_success: bool,
    stopped: bool,
    browser_started: bool,
}

/// What to do next in a job.
#[derive(Debug)]
pub enum StepPlan {
    /// No step is left, or the job was stopped by a failure.
    Done,
    /// Run the step at `index` in the engine itself.
    Agnostic { index: usize, action: ParsedAction },
    /// Run the step at `index` on the bridge of `platform`, which must be
    /// there first; for the first browser step of the job, a browser and
    /// a page must be opened first.
    OnPlatform { index: usize, platform: Platform, action: ParsedAction, launch_browser: bool },
}

impl JobRun {
    /// The index of the step that comes next.
    pub closed spec fn cursor(&self) -> int {
        self.cursor as int
    }

    /// The results of the steps that ran, in order.
    pub closed spec fn steps(&self) -> Seq<StepResult> {
        self.steps@
    }

    /// Whether every step so far succeeded.
    pub closed spec fn all_success(&self) -> bool {
        self.all_success
    }

    /// Whether a failure has stopped the job.
    pub closed spec fn stopped(&self) -> bool {
        self.stopped
    }

    /// Whether the browser of the job is open.
    pub closed spec fn browser_started(&self) -> bool {
        self.browser_started
    }

    /// Begins a job: its environment is written over that of the context.
    pub fn begin(job: &Job, ctx: &mut ExecutionContext) -> (run: Self)
        ensures
            run.cursor() == 0,
            run.steps() == Seq::<StepResult>::empty(),
            run.all_success(),
            !run.stopped(),
            !run.browser_started(),
            final(ctx)@ == (ContextView {
                env: merged(old(ctx)@.env, as_text(job.env@)),
                ..old(ctx)@
            }),
    {
        ctx.merge_env(&job.env);
        JobRun {
            cursor: 0,
            steps: Vec::new(),
            all_success: true,
            stopped: false,
            browser_started: false,
        }
    }

    /// Notes that the browser of the job was opened.
    pub fn browser_launched(&mut self)
        ensures
            final(self).browser_started(),
            final(self).cursor() == old(self).cursor(),
            final(self).steps() == old(self).steps(),
            final(self).all_success() == old(self).all_success(),
            final(self).stopped() == old(self).stopped(),
    {
        self.browser_started = true;
    }

    /// What to do next. Steps whose condition does not hold are passed
    /// over in silence. For the step that is found, its id, if it has
    /// one, becomes the current step of the context. A condition that
    /// does not evaluate, or a `uses` that does not parse, ends the job
    /// with that error.
    pub fn next_step(
        &mut self,
        job: &Job,
        workflow_platform: &Option<Platform>,
        ctx: &mut ExecutionContext,
    ) -> (r: Result<StepPlan, ExecutorError>)
        ensures
            final(self).steps() == old(self).steps(),
            final(self).all_success() == old(self).all_success(),
            final(self).stopped() == old(self).stopped(),
            final(self).browser_started() == old(self).browser_started(),
            old(self).stopped() ==> (r matches Ok(StepPlan::Done) && *final(self) == *old(self)
                && *final(ctx) == *old(ctx)),
            !old(self).stopped() ==> (match next_runnable(
                job.steps@,
                old(self).cursor(),
                old(ctx)@,
            ) {
                Err(fault) => r matches Err(ExecutorError::ExpressionError(e)) && e@ == fault
                    && *final(ctx) == *old(ctx),
                Ok(index) => if index >= job.steps.len() {
                    r matches Ok(StepPlan::Done) && final(self).cursor() == job.steps.len()
                        && *final(ctx) == *old(ctx)
                } else {
                    &&& final(self).cursor() == index + 1
                    &&& final(ctx)@ == (ContextView {
                        current_step: match job.steps[index].id {
                            Some(id) => Some(id@),
                            None => old(ctx)@.current_step,
                        },
                        ..old(ctx)@
                    })
                    &&& match parsed(job.steps[index].uses@) {
                        Err(message) => r matches Err(ExecutorError::UnknownAction(m)) && m@
                            == message,
                        Ok((category, name)) => if platform_of(category) is None && first_of(
                            first_of(job.steps[index].platform, job.platform),
                            *workflow_platform,
                        ) is None {
                            r matches Ok(StepPlan::Agnostic { index: i, action }) && i == index
                                && action.category == category && action.action@ == name
                        } else {
                            r matches Ok(
                                StepPlan::OnPlatform { index: i, platform, action, launch_browser },
                            ) && i == index && platform == step_platform(
                                job.steps[index],
                                *job,
                                *workflow_platform,
                            ) && action.category == category && action.action@ == name
                                && launch_browser == (platform == Platform::Playwright && !old(
                                self,
                            ).browser_started())
                        },
                    }
                },
            }),
    {
        if self.stopped {
            return Ok(StepPlan::Done);
        }
        let mut index = self.cursor;
        let mut found = false;
        while index < job.steps.len() && !found
            invariant
                self.cursor <= index,
                *self == *old(self),
                *ctx == *old(ctx),
                !old(self).stopped(),
                found ==> index < job.steps.len(),
                next_runnable(job.steps@, old(self).cursor(), ctx@) == if found {
                    Ok::<int, ExpressionFault>(index as int)
                } else {
                    next_runnable(job.steps@, index as int, ctx@)
                },
            decreases job.steps.len() - index + if found { 0int } else { 1int },
        {
            match &job.steps[index].condition {
                None => {
                    found = true;
                },
                Some(condition) => match evaluate_condition(condition.as_str(), ctx) {
                    Err(e) => {
                        return Err(ExecutorError::ExpressionError(e));
                    },
                    Ok(true) => {
                        found = true;
                    },
                    Ok(false) => {
                        index = index + 1;
                    },
                },
            }
        }
        if index >= job.steps.len() {
            self.cursor = job.steps.len();
            return Ok(StepPlan::Done);
        }
        let step = &job.steps[index];
        self.cursor = index + 1;
        if let Some(id) = &step.id {
            ctx.current_step = Some(id.clone());
        }
        match route_step(step, job, workflow_platform) {
            Err(e) => Err(e),
            Ok(StepRoute::Agnostic(action)) => Ok(StepPlan::Agnostic { index, action }),
            Ok(StepRoute::OnPlatform(platform, action)) => {
                let launch_browser = matches!(platform, Platform::Playwright)
                    && !self.browser_started;
                Ok(StepPlan::OnPlatform { index, platform, action, launch_browser })
            },
        }
    }

    /// Records what the step at `index` came to. The outputs of a step
    /// that ended without an error are kept in the context under the id of
    /// the step, if it has one. A step that did not succeed makes the job
    /// fail, and stops it unless the step or the job continues on error.
    pub fn record_step(
        &mut self,
        job: &Job,
        index: usize,
        outcome: Result<StepResult, ExecutorError>,
        ctx: &mut ExecutionContext,
    )
        requires
            index < job.steps.len(),
        ensures
            final(self).cursor() == old(self).cursor(),
            final(self).browser_started() == old(self).browser_started(),
            final(self).steps().len() == old(self).steps().len() + 1,
            final(self).steps().drop_last() == old(self).steps(),
            match outcome {
                Ok(result) => {
                    &&& final(self).steps().last() == result
                    &&& final(self).all_success() == (old(self).all_success() && result.success)
                    &&& final(self).stopped() == (old(self).stopped() || (!result.success
                        && !job.steps[index as int].continue_on_error && !job.continue_on_error))
                    &&& final(ctx)@ == (ContextView {
                        steps: match job.steps[index as int].id {
                            Some(id) => with_outputs(old(ctx)@.steps, id@, result.outputs.pairs()),
                            None => old(ctx)@.steps,
                        },
                        ..old(ctx)@
                    })
                },
                Err(error) => {
                    &&& !final(self).steps().last().success
                    &&& final(self).steps().last().error matches Some(text) && text@ == error.text()
                    &&& !final(self).all_success()
                    &&& final(self).stopped() == (old(self).stopped()
                        || (!job.steps[index as int].continue_on_error && !job.continue_on_error))
                    &&& *final(ctx) == *old(ctx)
                },
            },
    {
        let step = &job.steps[index];
        let keep_going = step.continue_on_error || job.continue_on_error;
        let ghost before = self.steps@;
        match outcome {
            Ok(result) => {
                if let Some(id) = &step.id {
                    let n = result.outputs.len();
                    let mut i: usize = 0;
                    assert(result.outputs.pairs().take(0) =~= Seq::<(Seq<char>, String)>::empty());
                    while i < n
                        invariant
                            i <= n,
                            n == result.outputs.pairs().len(),
                            *self == *old(self),
                            ctx@ == (ContextView {
                                steps: with_outputs(
                                    old(ctx)@.steps,
                                    id@,
                                    result.outputs.pairs().take(i as int),
                                ),
                                ..old(ctx)@
                            }),
                        decreases n - i,
                    {
                        proof {
                            let part = result.outputs.pairs().take(i + 1);
                            assert(part.drop_last() == result.outputs.pairs().take(i as int));
                            assert(part.last() == result.outputs.pairs()[i as int]);
                        }
                        let name = result.outputs.name_at(i);
                        let value = result.outputs.value_at(i);
                        ctx.set_output(id.as_str(), name.as_str(), value.clone());
                        i = i + 1;
                    }
                    assert(result.outputs.pairs().take(n as int) == result.outputs.pairs());
                }
                if !result.success {
                    self.all_success = false;
                    if !keep_going {
                        self.stopped = true;
                    }
                }
                self.steps.push(result);
            },
            Err(error) => {
                self.all_success = false;
                self.steps.push(failed_step(&error));
                if !keep_going {
                    self.stopped = true;
                }
            },
        }
        assert(self.steps@.drop_last() == before);
    }

    /// The result of a job whose hook before its steps failed: the job
    /// fails, with the steps that ran, which is none.
    pub fn abort(self) -> (r: JobResult)
        ensures
            !r.success,
            r.outputs@ == Map::<Seq<char>, String>::empty(),
            r.steps@ == self.steps(),
    {
        JobResult { success: false, outputs: NameMap::new(), steps: self.steps }
    }

    /// The result of the job: it succeeded where every step that ran did.
    pub fn finish(self) -> (r: JobResult)
        ensures
            r.success == self.all_success(),
            r.outputs@ == Map::<Seq<char>, String>::empty(),
            r.steps@ == self.steps(),
    {
        JobResult { success: self.all_success, outputs: NameMap::new(), steps: self.steps }
    }
}

/// What going through the jobs from `cursor` on comes to: the place of
/// the first job that runs, or the number of jobs where none is left, with
/// the jobs that have a result after that; or the fault of the first
/// condition that does not evaluate. On the way, a job that needs a job
/// without success fails without running, and a job whose condition does
/// not hold is passed over.
pub open spec fn gate_scan(
    order: Seq<Seq<char>>,
    jobs: Map<Seq<char>, Job>,
    cursor: int,
    done: Map<Seq<char>, bool>,
    ctx: ContextView,
) -> Result<(int, Map<Seq<char>, bool>), ExpressionFault>
    decreases order.len() - cursor,
{
    if cursor < 0 || cursor >= order.len() {
        Ok((order.len() as int, done))
    } else if !jobs.contains_key(order[cursor]) || done.contains_key(order[cursor]) {
        gate_scan(order, jobs, cursor + 1, done, ctx)
    } else {
        match gate_of(jobs[order[cursor]], done, ctx) {
            Err(fault) => Err(fault),
            Ok(JobGate::Run) => Ok((cursor, done)),
            Ok(JobGate::ConditionFalse) => gate_scan(order, jobs, cursor + 1, done, ctx),
            Ok(JobGate::FailedDependencies) => gate_scan(
                order,
                jobs,
                cursor + 1,
                done.insert(order[cursor], false),
                ctx,
            ),
        }
    }
}

/// Going through the jobs never goes back: the job that is handed out
/// stands at or after the place from which the jobs were gone through.
pub proof fn lemma_scan_forward(
    order: Seq<Seq<char>>,
    jobs: Map<Seq<char>, Job>,
    cursor: int,
    done: Map<Seq<char>, bool>,
    ctx: ContextView,
)
    requires
        0 <= cursor,
    ensures
        gate_scan(order, jobs, cursor, done, ctx) matches Ok(found) ==> cursor <= found.0
            || found.0 == order.len(),
    decreases order.len() - cursor,
{
    if cursor < order.len() {
        if !jobs.contains_key(order[cursor]) || done.contains_key(order[cursor]) {
            lemma_scan_forward(order, jobs, cursor + 1, done, ctx);
        } else {
            match gate_of(jobs[order[cursor]], done, ctx) {
                Ok(JobGate::ConditionFalse) => {
                    lemma_scan_forward(order, jobs, cursor + 1, done, ctx);
                },
                Ok(JobGate::FailedDependencies) => {
                    lemma_scan_forward(order, jobs, cursor + 1, done.insert(order[cursor], false), ctx);
                },
                _ => {},
            }
        }
    }
}

/// A job comes after the jobs that it needs. Let the jobs of a workflow
/// be put in order, and let job `a` need job `b`. Then `b` stands at an
/// earlier place of the order than `a`. The jobs are handed out from the
/// front of the order, one at a time and never going back.
pub proof fn lemma_needs_run_first(g: Seq<Node>, order: Seq<Seq<char>>, a: int, k: int, p: int)
    requires
        distinct(g),
        topological(g, order),
        0 <= a < g.len(),
        0 <= k < g[a].needs.len(),
        0 <= p < order.len(),
        order[p] == g[a].name,
    ensures
        exists|q: int| 0 <= q < p && order[q] == g[a].needs[k],
{
    assert(stands_before(order, g[a].needs[k], p));
    let q = choose|q: int| 0 <= q < p && q < order.len() && #[trigger] order[q] == g[a].needs[k];
    assert(order[q] == g[a].needs[k]);
}

/// Whether every job with a result succeeded.
pub open spec fn all_true(done: Map<Seq<char>, bool>) -> bool {
    forall|name: Seq<char>| #[trigger] done.contains_key(name) ==> done[name]
}

/// The results of the jobs, and whether all of them are successes.
#[derive(Debug)]
struct Tally {
    results: NameMap<JobResult>,
    all_success: bool,
}

impl Tally {
    /// No result yet.
    fn new() -> (t: Self)
        ensures
            t.results@ == Map::<Seq<char>, JobResult>::empty(),
            t.all_success,
            t.all_success == all_true(successes(t.results@)),
    {
        Tally { results: NameMap::new(), all_success: true }
    }

    /// Adds the result of a job that has none.
    fn add(&mut self, name: String, result: JobResult)
        requires
            !old(self).results@.contains_key(name@),
            old(self).all_success == all_true(successes(old(self).results@)),
        ensures
            final(self).results@ == old(self).results@.insert(name@, result),
            successes(final(self).results@) == successes(old(self).results@).insert(
                name@,
                result.success,
            ),
            final(self).all_success == all_true(successes(final(self).results@)),
    {
        let ghost before = successes(self.results@);
        if !result.success {
            self.all_success = false;
        }
        self.results.insert(name, result);
        proof {
            assert(successes(self.results@) =~= before.insert(name@, result.success));
            assert(before.insert(name@, result.success).contains_key(name@));
            if self.all_success {
                assert forall|other: Seq<char>| #[trigger]
                    successes(self.results@).contains_key(other) implies successes(
                    self.results@,
                )[other] by {
                    if other != name@ {
                        assert(before.contains_key(other));
                    }
                }
            } else if result.success {
                let bad = choose|bad: Seq<char>| #[trigger] before.contains_key(bad) && !before[bad];
                assert(successes(self.results@).contains_key(bad));
                assert(!successes(self.results@)[bad]);
            } else {
                assert(!successes(self.results@)[name@]);
            }
        }
    }
}

/// What a workflow has done so far.
#[derive(Debug)]
pub struct WorkflowRun {
    order: Vec<String>,
    cursor: usize,
    tally: Tally,
}

impl WorkflowRun {
    /// The jobs in the order in which they run.
    pub closed spec fn order(&self) -> Seq<Seq<char>> {
        texts(self.order@)
    }

    /// The place in the order of the job that comes next.
    pub closed spec fn cursor(&self) -> int {
        self.cursor as int
    }

    /// The results of the jobs so far.
    pub closed spec fn results(&self) -> Map<Seq<char>, JobResult> {
        self.tally.results@
    }

    #[verifier::type_invariant]
    spec fn sound(&self) -> bool {
        self.tally.all_success == all_true(successes(self.tally.results@))
    }

    /// Begins a workflow: its jobs are put in order.
    pub fn begin(workflow: &Workflow) -> (r: Result<Self, ExecutorError>)
        ensures
            match r {
                Ok(run) => closed(job_graph(workflow.jobs.pairs())) && acyclic(
                    job_graph(workflow.jobs.pairs()),
                ) && topological(job_graph(workflow.jobs.pairs()), run.order()) && run.cursor()
                    == 0 && run.results() == Map::<Seq<char>, JobResult>::empty(),
                Err(ExecutorError::JobNotFound(name)) => exists|i: int, k: int|
                    first_missing(job_graph(workflow.jobs.pairs()), i, k) && (#[trigger] job_graph(
                        workflow.jobs.pairs(),
                    )[i].needs[k]) == name@,
                Err(ExecutorError::CircularDependency(way)) => closed(
                    job_graph(workflow.jobs.pairs()),
                ) && !acyclic(job_graph(workflow.jobs.pairs())) && circle(
                    job_graph(workflow.jobs.pairs()),
                    texts(way@),
                ),
                Err(other) => false,
            },
    {
        match topological_sort(&workflow.jobs) {
            Ok(order) => Ok(WorkflowRun { order, cursor: 0, tally: Tally::new() }),
            Err(e) => Err(e),
        }
    }

    /// The job to run next, or none where no job is left. Jobs that do not
    /// run are decided on the way: one that needs a job that has failed
    /// is recorded as failed, without outputs and steps; one whose
    /// condition does not hold is passed over. The results that were
    /// there stay as they are. The job that is handed out becomes the current job of the
    /// context. A condition that does not evaluate ends the run with that
    /// error.
    pub fn next_job(&mut self, workflow: &Workflow, ctx: &mut ExecutionContext) -> (r: Result<
        Option<String>,
        ExecutorError,
    >)
        ensures
            final(self).order() == old(self).order(),
            grown_by_unrun(old(self).results(), final(self).results()),
            match gate_scan(
                old(self).order(),
                workflow.jobs@,
                old(self).cursor(),
                successes(old(self).results()),
                old(ctx)@,
            ) {
                Err(fault) => r matches Err(ExecutorError::ExpressionError(e)) && e@ == fault,
                Ok((stop, done)) => {
                    &&& successes(final(self).results()) == done
                    &&& if stop < old(self).order().len() {
                        &&& final(self).cursor() == stop + 1
                        &&& r matches Ok(Some(name)) && name@ == old(self).order()[stop]
                        &&& final(ctx)@ == (ContextView {
                            current_job: Some(old(self).order()[stop]),
                            ..old(ctx)@
                        })
                    } else {
                        &&& r matches Ok(None)
                        &&& *final(ctx) == *old(ctx)
                    }
                },
            },
    {
        proof {
            use_type_invariant(&*self);
        }
        let ghost order = self.order();
        while self.cursor < self.order.len()
            invariant
                order == self.order(),
                order == old(self).order(),
                *ctx == *old(ctx),
                self.tally.all_success == all_true(successes(self.tally.results@)),
                grown_by_unrun(old(self).results(), self.tally.results@),
                gate_scan(
                    order,
                    workflow.jobs@,
                    old(self).cursor(),
                    successes(old(self).results()),
                    ctx@,
                ) == gate_scan(
                    order,
                    workflow.jobs@,
                    self.cursor as int,
                    successes(self.tally.results@),
                    ctx@,
                ),
            decreases self.order.len() - self.cursor,
        {
            let at = self.cursor;
            let name = self.order[at].clone();
            assert(order[at as int] == name@);
            let known = self.tally.results.contains_key(name.as_str());
            match workflow.jobs.get(name.as_str()) {
                None => {
                    self.cursor = at + 1;
                },
                Some(job) => {
                    if known {
                        self.cursor = at + 1;
                    } else {
                        match job_gate(job, &self.tally.results, ctx) {
                            Err(e) => {
                                return Err(e);
                            },
                            Ok(JobGate::Run) => {
                                self.cursor = at + 1;
                                ctx.current_job = Some(name.clone());
                                return Ok(Some(name));
                            },
                            Ok(JobGate::ConditionFalse) => {
                                self.cursor = at + 1;
                            },
                            Ok(JobGate::FailedDependencies) => {
                                let mut tally = Tally::new();
                                std::mem::swap(&mut self.tally, &mut tally);
                                tally.add(name, failed_job());
                                self.tally = tally;
                                self.cursor = at + 1;
                            },
                        }
                    }
                },
            }
        }
        Ok(None)
    }

    /// Records what the job `name` came to. The outputs of a job that
    /// ended without an error are kept in the context under its name; a
    /// job that ended in an error is recorded as failed, without outputs
    /// and steps.
    /// Hands back `false`, and changes nothing, where the job has a result
    /// already.
    pub fn record_job(
        &mut self,
        name: &str,
        outcome: Result<JobResult, ExecutorError>,
        ctx: &mut ExecutionContext,
    ) -> (fresh: bool)
        ensures
            final(self).order() == old(self).order(),
            final(self).cursor() == old(self).cursor(),
            fresh == !old(self).results().contains_key(name@),
            !fresh ==> final(self).results() == old(self).results() && *final(ctx) == *old(ctx),
            fresh ==> match outcome {
                Ok(result) => final(self).results() == old(self).results().insert(name@, result)
                    && final(ctx)@ == (ContextView {
                    jobs: old(ctx)@.jobs.insert(name@, as_text(result.outputs@)),
                    ..old(ctx)@
                }),
                Err(_) => successes(final(self).results()) == successes(
                    old(self).results(),
                ).insert(name@, false) && grown_by_unrun(
                    old(self).results(),
                    final(self).results(),
                ) && *final(ctx) == *old(ctx),
            },
    {
        proof {
            use_type_invariant(&*self);
        }
        if self.tally.results.contains_key(name) {
            return false;
        }
        let mut tally = Tally::new();
        std::mem::swap(&mut self.tally, &mut tally);
        match outcome {
            Ok(result) => {
                let ghost jobs_before = ctx.jobs@;
                ctx.jobs.insert(name.to_string(), result.outputs.copy());
                proof {
                    assert(as_nested_text(ctx.jobs@) =~= as_nested_text(jobs_before).insert(
                        name@,
                        as_text(result.outputs@),
                    ));
                }
                tally.add(name.to_string(), result);
            },
            Err(_) => {
                tally.add(name.to_string(), failed_job());
            },
        }
        self.tally = tally;
        true
    }

    /// The result of the workflow: it succeeded where every job that has
    /// a result succeeded.
    pub fn finish(self, run_id: String) -> (r: WorkflowResult)
        ensures
            r.success == all_true(successes(self.results())),
            r.jobs@ == self.results(),
            r.run_id == run_id,
    {
        proof {
            use_type_invariant(&self);
        }
        WorkflowResult { success: self.tally.all_success, jobs: self.tally.results, run_id }
    }
}

/// The result of a workflow whose hook before its jobs failed: the
/// workflow fails, and no job has a result.
pub fn aborted_workflow(run_id: String) -> (r: WorkflowResult)
    ensures
        !r.success,
        r.jobs@ == Map::<Seq<char>, JobResult>::empty(),
        r.run_id == run_id,
{
    WorkflowResult { success: false, jobs: NameMap::new(), run_id }
}

/// Those of the bridges `active` that take the state of the clock, in
/// their order.
pub open spec fn clock_takers(active: Seq<Platform>) -> Seq<Platform> {
    active.filter(|p: Platform| supported(p, Operation::SyncClock))
}

/// The state of a clock as the bridges are sent it: whether it is
/// frozen, its offset, and its virtual time as text and in milliseconds,
/// both null on real time.
pub open spec fn sync_tree(clock: ClockModel) -> JsonTree {
    JsonTree::Object(
        seq![
            ("frozen"@, JsonTree::Bool(clock.frozen)),
            ("timezone_offset_secs"@, integer_tree(clock.timezone_offset_secs)),
            (
                "virtual_time_iso"@,
                match clock.virtual_time {
                    Some(t) => match rfc3339_writing(t / 1_000_000_000, t % 1_000_000_000) {
                        Some(text) => JsonTree::Text(text),
                        None => JsonTree::Null,
                    },
                    None => JsonTree::Null,
                },
            ),
            (
                "virtual_time_ms"@,
                match clock.virtual_time {
                    Some(t) => integer_tree(t / 1_000_000),
                    None => JsonTree::Null,
                },
            ),
        ],
    )
}

/// The id that the counter hands out after `n` ids, where `start` is
/// the id that it hands out next. After the last id that 64 bits hold,
/// counting begins again at 0.
pub open spec fn ids_after(start: nat, n: nat) -> nat
    decreases n,
{
    if n == 0 {
        start
    } else if ids_after(start, (n - 1) as nat) == u64::MAX {
        0
    } else {
        ids_after(start, (n - 1) as nat) + 1
    }
}

/// What stands in the way of a bridge, or nothing.
#[derive(Debug, Clone, Copy, PartialEq, Eq, Structural)]
pub enum BridgeNeed {
    /// The bridge is there.
    Ready,
    /// The bridge must be started, from its configuration.
    Start,
}

/// `base` with the configurations of `over` written over it.
pub open spec fn overlaid(base: PlatformsConfig, over: PlatformsConfig) -> PlatformsConfig {
    PlatformsConfig {
        playwright: first_of(over.playwright, base.playwright),
        nodejs: first_of(over.nodejs, base.nodejs),
        rust: first_of(over.rust, base.rust),
        python: first_of(over.python, base.python),
        java: first_of(over.java, base.java),
        go: first_of(over.go, base.go),
        web: first_of(over.web, base.web),
    }
}

/// `base` with the configurations of `over` written over it.
pub fn overlay(base: PlatformsConfig, over: PlatformsConfig) -> (r: PlatformsConfig)
    ensures
        r == overlaid(base, over),
{
    PlatformsConfig {
        playwright: if over.playwright.is_some() {
            over.playwright
        } else {
            base.playwright
        },
        nodejs: if over.nodejs.is_some() {
            over.nodejs
        } else {
            base.nodejs
        },
        rust: if over.rust.is_some() {
            over.rust
        } else {
            base.rust
        },
        python: if over.python.is_some() {
            over.python
        } else {
            base.python
        },
        java: if over.java.is_some() {
            over.java
        } else {
            base.java
        },
        go: if over.go.is_some() {
            over.go
        } else {
            base.go
        },
        web: if over.web.is_some() {
            over.web
        } else {
            base.web
        },
    }
}

/// Why an action on the clock is refused.
pub enum ClockFault {
    /// A parameter is missing or names no time, span or timezone.
    Config(Seq<char>),
    /// The clock has no such action.
    Unknown(Seq<char>),
}

/// The parameter `name`, if it is there.
pub open spec fn param(params: Map<Seq<char>, Seq<char>>, name: Seq<char>) -> Option<Seq<char>> {
    if params.contains_key(name) {
        Some(params[name])
    } else {
        None
    }
}

/// How a fault of the clock reads.
pub open spec fn clock_fault_text(kind: int, message: Seq<char>) -> Seq<char> {
    if kind == 0 {
        "Invalid time format: "@ + ("Invalid time format: "@ + message)
    } else if kind == 1 {
        "Invalid timezone format: "@ + ("Invalid timezone: "@ + message)
    } else {
        "Invalid duration format: "@ + ("Invalid duration format: "@ + message)
    }
}

/// What an action on the clock does: the clock after it, and why it was
/// refused if it was. `set` takes `time` and may take `timezone`;
/// `timezone` takes `timezone`; `forward` takes `duration`;
/// `forward-until` takes `time`; `reset` takes nothing. A `set` whose
/// timezone is refused has set the time all the same.
pub open spec fn clock_action(
    clock: ClockModel,
    action: Seq<char>,
    params: Map<Seq<char>, Seq<char>>,
    wall: int,
) -> (ClockModel, Option<ClockFault>) {
    if action == "set"@ {
        match param(params, "time"@) {
            None => (clock, Some(ClockFault::Config("clock/set requires 'time' parameter"@))),
            Some(text) => match time_value(text, rfc3339_reading(trim_text(text))) {
                Err(message) => (clock, Some(ClockFault::Config(clock_fault_text(0, message)))),
                Ok(t) => {
                    let set = after(clock, ClockOp::SetTime(t), wall);
                    match param(params, "timezone"@) {
                        None => (set, None),
                        Some(zone) => match timezone_offset(zone) {
                            Err(message) => (
                                set,
                                Some(ClockFault::Config(clock_fault_text(1, message))),
                            ),
                            Ok(offset) => (after(set, ClockOp::SetTimezone(offset), wall), None),
                        },
                    }
                },
            },
        }
    } else if action == "timezone"@ {
        match param(params, "timezone"@) {
            None => (
                clock,
                Some(ClockFault::Config("clock/timezone requires 'timezone' parameter"@)),
            ),
            Some(zone) => match timezone_offset(zone) {
                Err(message) => (clock, Some(ClockFault::Config(clock_fault_text(1, message)))),
                Ok(offset) => (after(clock, ClockOp::SetTimezone(offset), wall), None),
            },
        }
    } else if action == "forward"@ {
        match param(params, "duration"@) {
            None => (
                clock,
                Some(ClockFault::Config("clock/forward requires 'duration' parameter"@)),
            ),
            Some(text) => match duration_nanos(text) {
                Err(message) => (clock, Some(ClockFault::Config(clock_fault_text(2, message)))),
                Ok(span) => if Instant::holds(now_of(clock, wall) + span) {
                    (after(clock, ClockOp::Forward(span), wall), None)
                } else {
                    (clock, Some(ClockFault::Config("Cannot forward clock: time out of range"@)))
                },
            },
        }
    } else if action == "forward-until"@ {
        match param(params, "time"@) {
            None => (
                clock,
                Some(ClockFault::Config("clock/forward-until requires 'time' parameter"@)),
            ),
            Some(text) => match time_value(text, rfc3339_reading(trim_text(text))) {
                Err(message) => (clock, Some(ClockFault::Config(clock_fault_text(0, message)))),
                Ok(t) => if t < now_of(clock, wall) {
                    (
                        clock,
                        Some(
                            ClockFault::Config(
                                "Cannot forward clock: "@ + (
                                "Cannot move clock backwards: current time is "@ + instant_text(
                                    now_of(clock, wall),
                                ) + ", target is "@ + instant_text(t)),
                            ),
                        ),
                    )
                } else {
                    (after(clock, ClockOp::ForwardUntil(t), wall), None)
                },
            },
        }
    } else if action == "reset"@ {
        (ClockModel { virtual_time: None, frozen: false, ..clock }, None)
    } else {
        (clock, Some(ClockFault::Unknown("Unknown clock action: "@ + action)))
    }
}

/// The outputs of an action on the clock: the time as text and in
/// milliseconds, each where the clock has it.
pub open spec fn clock_outputs(clock: ClockModel) -> Map<Seq<char>, Seq<char>> {
    match clock.virtual_time {
        None => Map::empty(),
        Some(t) => {
            let with_ms = Map::<Seq<char>, Seq<char>>::empty().insert(
                "time_ms"@,
                signed_text(t / 1_000_000),
            );
            match rfc3339_writing(t / 1_000_000_000, t % 1_000_000_000) {
                Some(text) => with_ms.insert("time"@, text),
                None => with_ms,
            }
        },
    }
}

/// The engine of one workflow run: the configurations of the platforms,
/// which bridges are there, the context and the clock.
#[derive(Debug)]
pub struct Executor {
    configs: PlatformsConfig,
    active: Vec<Platform>,
    context: ExecutionContext,
    state_manager: Option<SharedStateManager>,
    mock_clock: MockClock,
}

impl Executor {
    /// The configurations of the platforms.
    pub closed spec fn configs(&self) -> PlatformsConfig {
        self.configs
    }

    /// The platforms whose bridge is there.
    pub closed spec fn active(&self) -> Seq<Platform> {
        self.active@
    }

    /// The context of the run.
    pub closed spec fn ctx(&self) -> ContextView {
        self.context@
    }

    /// The clock of the run.
    pub closed spec fn clock_model(&self) -> ClockModel {
        self.mock_clock@
    }

    /// An executor without configurations and bridges, with a new clock
    /// and a context of its own: the context holds nothing but a run id
    /// of its own, so no run sees what another run wrote. The clock is
    /// on real time, in UTC and not frozen, and moves by 3 seconds after
    /// each step once it is on virtual time.
    pub fn new() -> (e: Self)
        ensures
            e.configs() == PlatformsConfig::default_spec(),
            e.active() == Seq::<Platform>::empty(),
            e.clock_model() == new_clock(),
            e.ctx().env == Map::<Seq<char>, Seq<char>>::empty(),
            e.ctx().secrets == Map::<Seq<char>, Seq<char>>::empty(),
            e.ctx().steps == Map::<Seq<char>, Map<Seq<char>, Seq<char>>>::empty(),
            e.ctx().jobs == Map::<Seq<char>, Map<Seq<char>, Seq<char>>>::empty(),
            e.ctx().current_job is None,
            e.ctx().current_step is None,
            e.ctx().run_id.len() == 36,
    {
        Executor::with_context(ExecutionContext::new())
    }

    /// An executor that begins with the context `context`, without
    /// configurations and bridges, and with a new clock.
    pub fn with_context(context: ExecutionContext) -> (e: Self)
        ensures
            e.configs() == PlatformsConfig::default_spec(),
            e.active() == Seq::<Platform>::empty(),
            e.clock_model() == new_clock(),
            e.ctx() == context@,
    {
        Executor {
            configs: PlatformsConfig::default(),
            active: Vec::new(),
            context,
            state_manager: None,
            mock_clock: MockClock::new(),
        }
    }

    /// The clock of the run.
    pub fn clock(&self) -> (clock: &MockClock)
        ensures
            clock@ == self.clock_model(),
    {
        &self.mock_clock
    }

    /// The context of the run.
    pub fn context(&self) -> (context: &ExecutionContext)
        ensures
            context@ == self.ctx(),
    {
        &self.context
    }

    /// The context of the run, to write to.
    pub fn context_mut(&mut self) -> (context: &mut ExecutionContext)
        ensures
            context@ == old(self).ctx(),
            final(self).ctx() == final(context)@,
            final(self).configs() == old(self).configs(),
            final(self).active() == old(self).active(),
            final(self).clock_model() == old(self).clock_model(),
    {
        &mut self.context
    }

    /// The configurations of the platforms.
    pub fn platform_configs(&self) -> (configs: &PlatformsConfig)
        ensures
            *configs == self.configs(),
    {
        &self.configs
    }

    /// Writes the configurations of `platforms` over those of the
    /// executor.
    pub fn with_platforms(self, platforms: PlatformsConfig) -> (e: Self)
        ensures
            e.configs() == overlaid(self.configs(), platforms),
            e.active() == self.active(),
            e.ctx() == self.ctx(),
            e.clock_model() == self.clock_model(),
    {
        Executor {
            configs: overlay(self.configs, platforms),
            active: self.active,
            context: self.context,
            state_manager: self.state_manager,
            mock_clock: self.mock_clock,
        }
    }

    /// Sets an environment variable of the context.
    pub fn set_env(&mut self, key: &str, value: &str)
        ensures
            final(self).ctx() == (ContextView {
                env: old(self).ctx().env.insert(key@, value@),
                ..old(self).ctx()
            }),
            final(self).configs() == old(self).configs(),
            final(self).active() == old(self).active(),
            final(self).clock_model() == old(self).clock_model(),
    {
        self.context.set_env(key, value.to_string());
    }

    /// Sets a secret of the context.
    pub fn set_secret(&mut self, key: &str, value: &str)
        ensures
            final(self).ctx() == (ContextView {
                secrets: old(self).ctx().secrets.insert(key@, value@),
                ..old(self).ctx()
            }),
            final(self).configs() == old(self).configs(),
            final(self).active() == old(self).active(),
            final(self).clock_model() == old(self).clock_model(),
    {
        self.context.set_secret(key, value.to_string());
    }

    /// Makes ready for a workflow: the configurations of the workflow are
    /// written over those of the executor, and its environment over that
    /// of the context.
    pub fn prepare(&mut self, platforms: PlatformsConfig, env: &NameMap<String>)
        ensures
            final(self).configs() == overlaid(old(self).configs(), platforms),
            final(self).ctx() == (ContextView {
                env: merged(old(self).ctx().env, as_text(env@)),
                ..old(self).ctx()
            }),
            final(self).active() == old(self).active(),
            final(self).clock_model() == old(self).clock_model(),
    {
        let mut configs = PlatformsConfig::default();
        std::mem::swap(&mut self.configs, &mut configs);
        self.configs = overlay(configs, platforms);
        self.state_manager = Some(SharedStateManager::new());
        self.context.merge_env(env);
    }

    /// What stands in the way of the bridge of `platform`: nothing where
    /// it is there; a start where it has a configuration; else the
    /// platform cannot be used.
    pub fn bridge_need(&self, platform: Platform) -> (r: Result<BridgeNeed, ExecutorError>)
        ensures
            match r {
                Ok(BridgeNeed::Ready) => self.active().contains(platform),
                Ok(BridgeNeed::Start) => !self.active().contains(platform) && self.configs().has(
                    platform,
                ),
                Err(e) => !self.active().contains(platform) && !self.configs().has(platform) && (
                e matches ExecutorError::ConfigError(m) && m@ == platform_name(platform)
                    + " platform requires configuration in workflow"@),
            },
    {
        if self.is_active(platform) {
            Ok(BridgeNeed::Ready)
        } else if self.configs.has_platform(&platform) {
            Ok(BridgeNeed::Start)
        } else {
            Err(
                ExecutorError::ConfigError(
                    join2(name_of_platform(platform), " platform requires configuration in workflow"),
                ),
            )
        }
    }

    /// Whether the bridge of `platform` is there.
    pub fn is_active(&self, platform: Platform) -> (b: bool)
        ensures
            b == self.active().contains(platform),
    {
        let mut i: usize = 0;
        while i < self.active.len()
            invariant
                i <= self.active.len(),
                forall|j: int| 0 <= j < i ==> self.active[j] != platform,
            decreases self.active.len() - i,
        {
            if self.active[i] == platform {
                return true;
            }
            i = i + 1;
        }
        false
    }

    /// Notes that the bridge of `platform` was started.
    pub fn bridge_started(&mut self, platform: Platform)
        ensures
            final(self).active() == crate::state_manager::with_platform(
                old(self).active(),
                platform,
            ),
            final(self).configs() == old(self).configs(),
            final(self).ctx() == old(self).ctx(),
            final(self).clock_model() == old(self).clock_model(),
    {
        if !self.is_active(platform) {
            self.active.push(platform);
        }
    }

    /// The bridges that take the state of the clock: those that are there
    /// and have asked for it, in the order in which they were started.
    pub fn clock_targets(&self) -> (targets: Vec<Platform>)
        ensures
            targets@ == self.active().filter(|p: Platform| supported(p, Operation::SyncClock)),
    {
        let ghost keep = |p: Platform| supported(p, Operation::SyncClock);
        let mut targets: Vec<Platform> = Vec::new();
        let mut i: usize = 0;
        proof {
            assert(self.active@.take(0) =~= Seq::<Platform>::empty());
            reveal(Seq::filter);
        }
        while i < self.active.len()
            invariant
                i <= self.active.len(),
                keep == (|p: Platform| supported(p, Operation::SyncClock)),
                targets@ == self.active@.take(i as int).filter(keep),
            decreases self.active.len() - i,
        {
            proof {
                let part = self.active@.take(i + 1);
                assert(part.drop_last() == self.active@.take(i as int));
                assert(part.last() == self.active@[i as int]);
                reveal(Seq::filter);
            }
            if supports(self.active[i], Operation::SyncClock) {
                targets.push(self.active[i]);
            }
            i = i + 1;
        }
        assert(self.active@.take(self.active.len() as int) == self.active@);
        targets
    }

    /// The requests that hand the state of the clock to the bridges: one
    /// for each bridge that is there and takes the clock, in the order
    /// in which they were started, and none for any other. All carry
    /// the same state, that of the clock as it stands; their ids are
    /// taken from the counter one after the other.
    pub fn clock_broadcast(&self, ids: &mut RequestIds) -> (sent: Vec<(Platform, RpcRequest)>)
        ensures
            sent.len() == clock_takers(self.active()).len(),
            forall|i: int|
                0 <= i < sent.len() ==> (#[trigger] sent[i]).0 == clock_takers(self.active())[i]
                    && sent[i].1.jsonrpc@ == "2.0"@ && sent[i].1.method@ == "clock.sync"@
                    && sent[i].1.params@ == sync_tree(self.clock_model()) && sent[i].1.id
                    == ids_after(old(ids).upcoming(), i as nat),
            final(ids).upcoming() == ids_after(old(ids).upcoming(), sent.len() as nat),
    {
        let targets = self.clock_targets();
        let mut sent: Vec<(Platform, RpcRequest)> = Vec::new();
        let mut i: usize = 0;
        while i < targets.len()
            invariant
                i <= targets.len(),
                targets@ == clock_takers(self.active()),
                sent.len() == i,
                ids.upcoming() == ids_after(old(ids).upcoming(), i as nat),
                forall|j: int|
                    0 <= j < i ==> (#[trigger] sent[j]).0 == targets[j] && sent[j].1.jsonrpc@
                        == "2.0"@ && sent[j].1.method@ == "clock.sync"@ && sent[j].1.params@
                        == sync_tree(self.clock_model()) && sent[j].1.id == ids_after(
                        old(ids).upcoming(),
                        j as nat,
                    ),
            decreases targets.len() - i,
        {
            let state = self.mock_clock.get_sync_state();
            proof {
                assert(clock_tree(state) == sync_tree(self.clock_model())) by {
                    assert(clock_tree(state)->Object_0 =~= sync_tree(self.clock_model())->Object_0);
                }
                reveal_with_fuel(ids_after, 2);
            }
            let request = clock_request(ids, state);
            sent.push((targets[i], request));
            i = i + 1;
        }
        sent
    }

    /// What follows a main step: where the clock is on virtual time it
    /// moves on by its step, and its state is handed back to be sent to
    /// the bridges. After a hook step nothing of this happens.
    pub fn after_step(&mut self, phase: ExecutionPhase, wall: Instant) -> (state: Option<
        ClockSyncState,
    >)
        ensures
            final(self).configs() == old(self).configs(),
            final(self).active() == old(self).active(),
            final(self).ctx() == old(self).ctx(),
            if phase == ExecutionPhase::Steps && old(self).clock_model().virtual_time is Some {
                &&& state is Some
                &&& final(self).clock_model() == if !old(self).clock_model().auto_advance
                    || Instant::holds(
                    now_of(old(self).clock_model(), wall@) + old(self).clock_model().step,
                ) {
                    after(old(self).clock_model(), ClockOp::AutoAdvance, wall@)
                } else {
                    old(self).clock_model()
                }
            } else {
                state is None && final(self).clock_model() == old(self).clock_model()
            },
    {
        if matches!(phase, ExecutionPhase::Steps) && self.mock_clock.is_active() {
            self.mock_clock.auto_advance_step(wall);
            Some(self.mock_clock.get_sync_state())
        } else {
            None
        }
    }

    /// Carries out an action on the clock. What comes back on success are
    /// the outputs `time` and `time_ms` of the clock after the action;
    /// the state of the clock is then due to be sent to the bridges.
    pub fn execute_clock_action(&mut self, action: &str, params: &NameMap<String>, wall: Instant) -> (r:
        Result<StepResult, ExecutorError>)
        ensures
            final(self).configs() == old(self).configs(),
            final(self).active() == old(self).active(),
            final(self).ctx() == old(self).ctx(),
            final(self).clock_model() == clock_action(
                old(self).clock_model(),
                action@,
                as_text(params@),
                wall@,
            ).0,
            match clock_action(old(self).clock_model(), action@, as_text(params@), wall@).1 {
                None => r matches Ok(result) && result.success && result.error is None
                    && result.response is None && as_text(result.outputs@) == clock_outputs(
                    final(self).clock_model(),
                ),
                Some(ClockFault::Config(message)) => r matches Err(ExecutorError::ConfigError(m))
                    && m@ == message,
                Some(ClockFault::Unknown(message)) => r matches Err(
                    ExecutorError::UnknownAction(m),
                ) && m@ == message,
            },
    {
        let a = to_chars(action);
        if is_word(&a, "set") {
            let text = match params.get("time") {
                Some(t) => t,
                None => {
                    return Err(
                        ExecutorError::ConfigError("clock/set requires 'time' parameter".to_string()),
                    );
                },
            };
            let time = match parse_time(text.as_str()) {
                Ok(t) => t,
                Err(e) => {
                    let inner = e.message();
                    return Err(
                        ExecutorError::ConfigError(join2("Invalid time format: ", inner.as_str())),
                    );
                },
            };
            self.mock_clock.set(time);
            if let Some(zone) = params.get("timezone") {
                match parse_timezone(zone.as_str()) {
                    Ok(offset) => {
                        self.mock_clock.set_timezone(offset);
                    },
                    Err(e) => {
                        let inner = e.message();
                        return Err(
                            ExecutorError::ConfigError(
                                join2("Invalid timezone format: ", inner.as_str()),
                            ),
                        );
                    },
                }
            }
        } else if is_word(&a, "timezone") {
            let zone = match params.get("timezone") {
                Some(z) => z,
                None => {
                    return Err(
                        ExecutorError::ConfigError(
                            "clock/timezone requires 'timezone' parameter".to_string(),
                        ),
                    );
                },
            };
            match parse_timezone(zone.as_str()) {
                Ok(offset) => {
                    self.mock_clock.set_timezone(offset);
                },
                Err(e) => {
                    let inner = e.message();
                    return Err(
                        ExecutorError::ConfigError(
                            join2("Invalid timezone format: ", inner.as_str()),
                        ),
                    );
                },
            }
        } else if is_word(&a, "forward") {
            let text = match params.get("duration") {
                Some(t) => t,
                None => {
                    return Err(
                        ExecutorError::ConfigError(
                            "clock/forward requires 'duration' parameter".to_string(),
                        ),
                    );
                },
            };
            let span = match parse_duration(text.as_str()) {
                Ok(d) => d,
                Err(e) => {
                    let inner = e.message();
                    return Err(
                        ExecutorError::ConfigError(
                            join2("Invalid duration format: ", inner.as_str()),
                        ),
                    );
                },
            };
            if !self.mock_clock.forward(span, wall) {
                return Err(
                    ExecutorError::ConfigError("Cannot forward clock: time out of range".to_string()),
                );
            }
        } else if is_word(&a, "forward-until") {
            let text = match params.get("time") {
                Some(t) => t,
                None => {
                    return Err(
                        ExecutorError::ConfigError(
                            "clock/forward-until requires 'time' parameter".to_string(),
                        ),
                    );
                },
            };
            let time = match parse_time(text.as_str()) {
                Ok(t) => t,
                Err(e) => {
                    let inner = e.message();
                    return Err(
                        ExecutorError::ConfigError(join2("Invalid time format: ", inner.as_str())),
                    );
                },
            };
            match self.mock_clock.forward_until(time, wall) {
                Ok(_) => {},
                Err(e) => {
                    let inner = e.message();
                    return Err(
                        ExecutorError::ConfigError(join2("Cannot forward clock: ", inner.as_str())),
                    );
                },
            }
        } else if is_word(&a, "reset") {
            self.mock_clock.reset();
        } else {
            return Err(ExecutorError::UnknownAction(join2("Unknown clock action: ", action)));
        }
        let state = self.mock_clock.get_sync_state();
        let mut outputs: NameMap<String> = NameMap::new();
        let ghost none = Map::<Seq<char>, Seq<char>>::empty();
        assert(as_text(outputs@) =~= none);
        if let Some(ms) = state.virtual_time_ms {
            outputs.insert("time_ms".to_string(), signed_decimal(ms));
            assert(as_text(outputs@) =~= none.insert("time_ms"@, signed_text(ms as int)));
        }
        let ghost first = as_text(outputs@);
        if let Some(iso) = state.virtual_time_iso {
            outputs.insert("time".to_string(), iso);
            assert(as_text(outputs@) =~= first.insert("time"@, iso@));
        }
        proof {
            reveal_strlit("time_ms");
            reveal_strlit("time");
            assert("time_ms"@.len() == 7);
            assert("time"@.len() == 4);
            assert("time_ms"@ != "time"@);
            assert(as_text(outputs@) =~= clock_outputs(self.mock_clock@));
        }
        Ok(StepResult { success: true, outputs, error: None, response: None })
    }
}

impl Default for Executor {
    /// What [`Executor::new`] gives.
    fn default() -> (e: Self)
        ensures
            e.configs() == PlatformsConfig::default_spec(),
            e.active() == Seq::<Platform>::empty(),
            e.clock_model() == new_clock(),
            e.ctx().env == Map::<Seq<char>, Seq<char>>::empty(),
            e.ctx().secrets == Map::<Seq<char>, Seq<char>>::empty(),
            e.ctx().steps == Map::<Seq<char>, Map<Seq<char>, Seq<char>>>::empty(),
            e.ctx().jobs == Map::<Seq<char>, Map<Seq<char>, Seq<char>>>::empty(),
            e.ctx().current_job is None,
            e.ctx().current_step is None,
            e.ctx().run_id.len() == 36,
    {
        Executor::new()
    }
}

} // verus!
