//! The dependency graph of the workflows of a directory, and its levels.

use vstd::prelude::*;
use crate::graph::{
    above, acyclic, all_differ, closed, distinct, find_place, first_repeat, has_name, holds,
    in_level, in_level_below, in_range, in_some_level, level_rounds, leveled, needs, ranked, rising, rising_at, rounds_done,
    sorted_places, touches, Node,
};
use crate::job::Workflow;
use crate::namemap::NameMap;
use crate::text::{copy_names, join2, join3, texts};

verus! {

/// Why a set of workflows is no graph that can be run.
#[derive(Debug)]
pub enum DAGError {
    /// A workflow depends on a name that no workflow carries.
    MissingDependency { workflow: String, dependency: String },
    /// The dependencies run in a circle.
    CyclicDependency,
    /// Two workflows carry the same name.
    DuplicateName(String),
}

impl DAGError {
    /// How the error reads.
    pub open spec fn text(&self) -> Seq<char> {
        match self {
            DAGError::MissingDependency { workflow, dependency } => "Workflow '"@ + workflow@
                + "' depends on non-existent workflow '"@ + dependency@ + "'"@,
            DAGError::CyclicDependency => "Cyclic dependency detected in workflows"@,
            DAGError::DuplicateName(name) => "Duplicate workflow name: "@ + name@,
        }
    }

    /// How the error reads.
    pub fn message(&self) -> (s: String)
        ensures
            s@ == self.text(),
    {
        match self {
            DAGError::MissingDependency { workflow, dependency } => {
                let head = join3(
                    "Workflow '",
                    workflow.as_str(),
                    "' depends on non-existent workflow '",
                );
                join3(head.as_str(), dependency.as_str(), "'")
            },
            DAGError::CyclicDependency => "Cyclic dependency detected in workflows".to_string(),
            DAGError::DuplicateName(name) => join2("Duplicate workflow name: ", name.as_str()),
        }
    }
}

/// A workflow with what it depends on.
#[derive(Debug)]
pub struct WorkflowNode {
    pub workflow: Workflow,
    pub dependencies: Vec<String>,
    /// Run even when a dependency failed or was skipped.
    pub always: bool,
}

/// The dependency graph that a list of workflows describes.
pub open spec fn graph_of(workflows: Seq<Workflow>) -> Seq<Node> {
    Seq::new(
        workflows.len(),
        |i: int| Node { name: workflows[i].name@, needs: texts(workflows[i].depends_on.workflows@) },
    )
}

/// Whether place `i` is the first whose name stands at an earlier place.
pub open spec fn first_duplicate(g: Seq<Node>, i: int) -> bool {
    &&& 0 <= i < g.len()
    &&& exists|j: int| 0 <= j < i && (#[trigger] g[j]).name == g[i].name
    &&& distinct(g.subrange(0, i))
}

/// Whether need `k` of place `i` is the first, in the order of the list,
/// that names no node.
pub open spec fn first_missing(g: Seq<Node>, i: int, k: int) -> bool {
    &&& 0 <= i < g.len()
    &&& 0 <= k < g[i].needs.len()
    &&& !has_name(g, g[i].needs[k])
    &&& forall|e: int| 0 <= e < k ==> has_name(g, #[trigger] g[i].needs[e])
    &&& forall|a: int, e: int|
        0 <= a < i && 0 <= e < g[a].needs.len() ==> has_name(g, #[trigger] g[a].needs[e])
}

/// How the places in `wants` stand for the needs of `g`.
pub open spec fn wired(g: Seq<Node>, names: Seq<String>, wants: Seq<Vec<usize>>) -> bool {
    &&& g.len() == names.len()
    &&& wants.len() == names.len()
    &&& forall|i: int| 0 <= i < g.len() ==> (#[trigger] g[i]).name == names[i]@
    &&& forall|i: int| 0 <= i < g.len() ==> (#[trigger] wants[i]).len() == g[i].needs.len()
    &&& forall|i: int, d: int|
        0 <= i < g.len() && 0 <= d < wants[i].len() ==> (#[trigger] wants[i][d]) < g.len()
            && g[wants[i][d] as int].name == g[i].needs[d]
}

/// A place that no round could take proves a circle.
proof fn lemma_stuck(
    g: Seq<Node>,
    names: Seq<String>,
    wants: Seq<Vec<usize>>,
    levels: Seq<Vec<usize>>,
    rank: Seq<usize>,
    r: spec_fn(int) -> nat,
    i: int,
)
    requires
        wired(g, names, wants),
        rounds_done(names, wants, levels, rank),
        0 <= i < g.len(),
        rank[i] == g.len(),
    ensures
        !ranked(g, r),
    decreases r(i),
{
    if ranked(g, r) {
        assert(touches(wants, rank, i, g.len() as int));
        let d = choose|d: int|
            0 <= d < wants[i].len() && rank[(#[trigger] wants[i][d]) as int] == g.len();
        let w = wants[i][d] as int;
        assert(g[i].needs[d] == g[w].name);
        assert(needs(g, i, w));
        lemma_stuck(g, names, wants, levels, rank, r, w);
    }
}

/// Where every place was taken, the ranks show that there is no circle.
proof fn lemma_ranks_acyclic(
    g: Seq<Node>,
    names: Seq<String>,
    wants: Seq<Vec<usize>>,
    levels: Seq<Vec<usize>>,
    rank: Seq<usize>,
)
    requires
        wired(g, names, wants),
        distinct(g),
        rounds_done(names, wants, levels, rank),
        forall|i: int| 0 <= i < g.len() ==> (#[trigger] rank[i]) < g.len(),
    ensures
        acyclic(g),
{
    let r = |i: int| if 0 <= i < rank.len() { rank[i] as nat } else { 0nat };
    assert forall|a: int, b: int| #[trigger] needs(g, a, b) implies r(b) < r(a) by {
        let d = choose|d: int| 0 <= d < g[a].needs.len() && g[a].needs[d] == g[b].name;
        let w = wants[a][d] as int;
        assert(g[w].name == g[b].name);
        assert(w == b);
        assert(above(wants, rank, a));
    }
    assert(ranked(g, r));
}

/// The levels by name are the level decomposition of the graph.
proof fn lemma_rounds_leveled(
    g: Seq<Node>,
    names: Seq<String>,
    wants: Seq<Vec<usize>>,
    levels: Seq<Vec<usize>>,
    rank: Seq<usize>,
    named: Seq<Seq<Seq<char>>>,
)
    requires
        wired(g, names, wants),
        distinct(g),
        rounds_done(names, wants, levels, rank),
        forall|i: int| 0 <= i < g.len() ==> (#[trigger] rank[i]) < g.len(),
        named.len() == levels.len(),
        forall|k: int| 0 <= k < levels.len() ==> (#[trigger] named[k]).len() == levels[k].len(),
        forall|k: int, j: int|
            0 <= k < levels.len() && 0 <= j < levels[k].len() ==> (#[trigger] named[k][j])
                == names[levels[k][j] as int]@,
    ensures
        leveled(g, named),
{
    assert forall|k: int| 0 <= k < named.len() implies (#[trigger] named[k]).len() > 0 && rising(
        named[k],
    ) by {
        assert(levels[k].len() > 0);
        assert(rising_at(names, levels[k]@));
        assert forall|a: int, b: int| 0 <= a < b < named[k].len() implies crate::text::text_lt(
            #[trigger] named[k][a],
            #[trigger] named[k][b],
        ) by {
            assert(named[k][a] == names[levels[k]@[a] as int]@);
            assert(named[k][b] == names[levels[k]@[b] as int]@);
        }
    }
    // a name in level k is the name of a place of rank k
    assert forall|k: int, name: Seq<char>| #[trigger] in_level(named, k, name) implies exists|
        i: int,
    |
        0 <= i < g.len() && (#[trigger] g[i]).name == name && rank[i] == k by {
        let j = choose|j: int| 0 <= j < named[k].len() && named[k][j] == name;
        let i = levels[k][j] as int;
        assert(named[k][j] == names[i]@);
        assert(g[i].name == name);
    }
    assert forall|k: int, name: Seq<char>| #[trigger] in_level(named, k, name) implies has_name(
        g,
        name,
    ) by {
        let i = choose|i: int| 0 <= i < g.len() && (#[trigger] g[i]).name == name && rank[i] == k;
        assert(g[i].name == name);
    }
    // a place of rank k has its name in level k
    assert forall|i: int| 0 <= i < g.len() implies in_level(
        named,
        rank[i] as int,
        (#[trigger] g[i]).name,
    ) by {
        let k = rank[i] as int;
        assert(holds(levels[k]@, i));
        let j = choose|j: int| 0 <= j < levels[k]@.len() && #[trigger] levels[k]@[j] == i;
        assert(named[k][j] == names[levels[k][j] as int]@);
        assert(named[k][j] == g[i].name);
    }
    assert forall|k: int, l: int, name: Seq<char>|
        #[trigger] in_level(named, k, name) && #[trigger] in_level(named, l, name) implies k
        == l by {
        let a = choose|i: int| 0 <= i < g.len() && (#[trigger] g[i]).name == name && rank[i] == k;
        let b = choose|i: int| 0 <= i < g.len() && (#[trigger] g[i]).name == name && rank[i] == l;
        assert(a == b);
    }
    assert forall|i: int, k: int, d: int|
        0 <= i < g.len() && #[trigger] in_level(named, k, g[i].name) && 0 <= d
            < g[i].needs.len() implies in_level_below(named, k, #[trigger] g[i].needs[d]) by {
        assert(in_level(named, rank[i] as int, g[i].name));
        assert(k == rank[i]);
        let w = wants[i][d] as int;
        assert(above(wants, rank, i));
        assert(rank[w] < rank[i]);
        assert(in_level(named, rank[w] as int, g[w].name));
    }
    assert forall|i: int, k: int|
        0 <= i < g.len() && #[trigger] in_level(named, k, g[i].name) && k > 0 implies exists|
        d: int,
    |
        0 <= d < g[i].needs.len() && in_level(named, k - 1, #[trigger] g[i].needs[d]) by {
        assert(in_level(named, rank[i] as int, g[i].name));
        assert(k == rank[i]);
        assert(touches(wants, rank, i, rank[i] - 1));
        let d = choose|d: int|
            0 <= d < wants[i].len() && rank[(#[trigger] wants[i][d]) as int] == rank[i] - 1;
        let w = wants[i][d] as int;
        assert(in_level(named, rank[w] as int, g[w].name));
        assert(g[i].needs[d] == g[w].name);
    }
    assert forall|i: int| 0 <= i < g.len() implies in_some_level(named, (#[trigger] g[i]).name) by {
        assert(in_level(named, rank[i] as int, g[i].name));
    }
}

/// The workflows of a directory as a graph of dependencies, cut into
/// levels: no two nodes share a name, every dependency is a node, and
/// there is no circle.
#[derive(Debug)]
pub struct WorkflowDAG {
    nodes: NameMap<WorkflowNode>,
    execution_levels: Vec<Vec<String>>,
}

/// The graph that a sequence of named nodes describes.
pub open spec fn graph_of_nodes(entries: Seq<(Seq<char>, WorkflowNode)>) -> Seq<Node> {
    Seq::new(
        entries.len(),
        |i: int| Node { name: entries[i].0, needs: texts(entries[i].1.dependencies@) },
    )
}

/// The levels of a graph by name.
pub open spec fn level_texts(levels: Seq<Vec<String>>) -> Seq<Seq<Seq<char>>> {
    Seq::new(levels.len(), |k: int| texts(levels[k]@))
}

impl WorkflowDAG {
    /// The nodes in the order in which the workflows were given.
    pub closed spec fn entries(&self) -> Seq<(Seq<char>, WorkflowNode)> {
        self.nodes.pairs()
    }

    /// The nodes by name.
    pub closed spec fn view(&self) -> Map<Seq<char>, WorkflowNode> {
        self.nodes@
    }

    /// The graph of dependencies.
    pub open spec fn graph(&self) -> Seq<Node> {
        graph_of_nodes(self.entries())
    }

    /// The levels, each a list of names.
    pub closed spec fn levels(&self) -> Seq<Seq<Seq<char>>> {
        level_texts(self.execution_levels@)
    }

    #[verifier::type_invariant]
    spec fn well_formed(&self) -> bool {
        &&& distinct(self.graph())
        &&& closed(self.graph())
        &&& acyclic(self.graph())
        &&& leveled(self.graph(), self.levels())
        &&& self@ == crate::namemap::bindings(self.entries())
    }

    /// Builds the graph of `workflows`. Names must differ, every dependency
    /// must name a workflow of the list and no workflow may depend on
    /// itself, directly or through others; where several of these fail, the
    /// error is the first of them in this order.
    pub fn build(workflows: Vec<Workflow>) -> (r: Result<Self, DAGError>)
        ensures
            match r {
                Ok(dag) => {
                    &&& distinct(graph_of(workflows@))
                    &&& closed(graph_of(workflows@))
                    &&& acyclic(graph_of(workflows@))
                    &&& dag.graph() == graph_of(workflows@)
                    &&& leveled(dag.graph(), dag.levels())
                    &&& dag.entries().len() == workflows.len()
                    &&& forall|i: int|
                        0 <= i < workflows.len() ==> (#[trigger] dag.entries()[i]).1.workflow
                            == workflows[i] && dag.entries()[i].1.always
                            == workflows[i].depends_on.always
                    &&& forall|i: int|
                        0 <= i < dag.entries().len() ==> dag@.contains_key(
                            (#[trigger] dag.entries()[i]).0,
                        ) && dag@[dag.entries()[i].0] == dag.entries()[i].1
                },
                Err(DAGError::DuplicateName(name)) => exists|i: int|
                    first_duplicate(graph_of(workflows@), i) && (#[trigger] workflows[i]).name@
                        == name@,
                Err(DAGError::MissingDependency { workflow, dependency }) => distinct(
                    graph_of(workflows@),
                ) && exists|i: int, k: int|
                    first_missing(graph_of(workflows@), i, k) && (#[trigger] workflows[i]).name@
                        == workflow@ && (#[trigger] workflows[i].depends_on.workflows[k])@
                        == dependency@,
                Err(DAGError::CyclicDependency) => distinct(graph_of(workflows@)) && closed(
                    graph_of(workflows@),
                ) && !acyclic(graph_of(workflows@)),
            },
    {
        let ghost g = graph_of(workflows@);
        let n = workflows.len();
        let mut names: Vec<String> = Vec::new();
        let mut i: usize = 0;
        while i < n
            invariant
                i <= n,
                n == workflows.len(),
                names.len() == i,
                forall|j: int| 0 <= j < i ==> (#[trigger] names[j])@ == workflows[j].name@,
            decreases n - i,
        {
            names.push(workflows[i].name.clone());
            i = i + 1;
        }
        match first_repeat(&names) {
            Some(at) => {
                proof {
                    let j = choose|j: int| 0 <= j < at && (#[trigger] names[j])@ == names[at as int]@;
                    assert(g[j].name == g[at as int].name);
                    let front = g.subrange(0, at as int);
                    assert forall|a: int, b: int|
                        0 <= a < front.len() && 0 <= b < front.len() && a != b implies (
                    #[trigger] front[a]).name != (#[trigger] front[b]).name by {
                        let part = names@.subrange(0, at as int);
                        if a < b {
                            assert(part[a]@ != part[b]@);
                        } else {
                            assert(part[b]@ != part[a]@);
                        }
                    }
                    assert(first_duplicate(g, at as int));
                }
                return Err(DAGError::DuplicateName(names[at].clone()));
            },
            None => {},
        }
        proof {
            assert forall|a: int, b: int|
                0 <= a < g.len() && 0 <= b < g.len() && a != b implies (#[trigger] g[a]).name != (
            #[trigger] g[b]).name by {
                if a < b {
                    assert(names[a]@ != names[b]@);
                } else {
                    assert(names[b]@ != names[a]@);
                }
            }
        }
        let mut wants: Vec<Vec<usize>> = Vec::new();
        let mut i: usize = 0;
        while i < n
            invariant
                i <= n,
                n == workflows.len(),
                names.len() == n,
                g == graph_of(workflows@),
                distinct(g),
                forall|j: int| 0 <= j < n ==> (#[trigger] names[j])@ == workflows[j].name@,
                wants.len() == i,
                forall|a: int| 0 <= a < i ==> (#[trigger] wants[a]).len() == g[a].needs.len(),
                forall|a: int, d: int|
                    0 <= a < i && 0 <= d < wants[a].len() ==> (#[trigger] wants[a][d]) < n
                        && g[wants[a][d] as int].name == g[a].needs[d],
            decreases n - i,
        {
            let deps = &workflows[i].depends_on.workflows;
            let mut row: Vec<usize> = Vec::new();
            let mut k: usize = 0;
            while k < deps.len()
                invariant
                    k <= deps.len(),
                    i < n,
                    n == workflows.len(),
                    names.len() == n,
                    g == graph_of(workflows@),
                    distinct(g),
                    deps == &workflows[i as int].depends_on.workflows,
                    forall|j: int| 0 <= j < n ==> (#[trigger] names[j])@ == workflows[j].name@,
                    row.len() == k,
                    wants.len() == i,
                    forall|a: int, d: int|
                        0 <= a < i && 0 <= d < wants[a].len() ==> (#[trigger] wants[a][d]) < n
                            && g[wants[a][d] as int].name == g[a].needs[d],
                    forall|a: int| 0 <= a < i ==> (#[trigger] wants[a]).len() == g[a].needs.len(),
                    forall|d: int|
                        0 <= d < k ==> (#[trigger] row[d]) < n && g[row[d] as int].name
                            == g[i as int].needs[d],
                decreases deps.len() - k,
            {
                match find_place(&names, deps[k].as_str()) {
                    Some(j) => {
                        row.push(j);
                    },
                    None => {
                        proof {
                            let gi = i as int;
                            let gk = k as int;
                            assert(g[gi].needs[gk] == deps[gk]@);
                            assert(!has_name(g, g[gi].needs[gk])) by {
                                if has_name(g, g[gi].needs[gk]) {
                                    let j = choose|j: int|
                                        0 <= j < g.len() && (#[trigger] g[j]).name
                                            == g[gi].needs[gk];
                                    assert(names[j]@ == deps[gk]@);
                                }
                            }
                            assert forall|e: int| 0 <= e < gk implies has_name(
                                g,
                                #[trigger] g[gi].needs[e],
                            ) by {
                                assert(g[row[e] as int].name == g[gi].needs[e]);
                            }
                            assert forall|a: int, e: int|
                                0 <= a < gi && 0 <= e < g[a].needs.len() implies has_name(
                                g,
                                #[trigger] g[a].needs[e],
                            ) by {
                                assert(g[wants[a][e] as int].name == g[a].needs[e]);
                            }
                            assert(first_missing(g, gi, gk));
                            assert(workflows[gi].name@ == names[gi]@);
                            assert(workflows[gi].depends_on.workflows[gk]@ == deps[gk]@);
                        }
                        return Err(
                            DAGError::MissingDependency {
                                workflow: names[i].clone(),
                                dependency: deps[k].clone(),
                            },
                        );
                    },
                }
                k = k + 1;
            }
            wants.push(row);
            i = i + 1;
        }
        proof {
            assert(wired(g, names@, wants@));
            assert(in_range(wants@));
            assert forall|a: int, e: int|
                0 <= a < g.len() && 0 <= e < g[a].needs.len() implies has_name(
                g,
                #[trigger] g[a].needs[e],
            ) by {
                assert(g[wants[a][e] as int].name == g[a].needs[e]);
            }
            assert(closed(g));
            assert(all_differ(names@));
        }
        let places = sorted_places(&names);
        let (levels, rank) = level_rounds(&names, &places, &wants);
        let mut i: usize = 0;
        while i < n
            invariant
                i <= n,
                rank.len() == n,
                n == g.len(),
                wired(g, names@, wants@),
                g == graph_of(workflows@),
                distinct(g),
                closed(g),
                rounds_done(names@, wants@, levels@, rank@),
                forall|j: int| 0 <= j < i ==> (#[trigger] rank[j]) < n,
            decreases n - i,
        {
            if rank[i] >= n {
                proof {
                    if acyclic(g) {
                        let r = choose|r: spec_fn(int) -> nat| ranked(g, r);
                        lemma_stuck(g, names@, wants@, levels@, rank@, r, i as int);
                    }
                }
                return Err(DAGError::CyclicDependency);
            }
            i = i + 1;
        }
        let mut execution_levels: Vec<Vec<String>> = Vec::new();
        let mut k: usize = 0;
        while k < levels.len()
            invariant
                k <= levels.len(),
                names.len() == n,
                rounds_done(names@, wants@, levels@, rank@),
                execution_levels.len() == k,
                forall|a: int|
                    0 <= a < k ==> (#[trigger] execution_levels[a]).len() == levels[a].len(),
                forall|a: int, j: int|
                    0 <= a < k && 0 <= j < levels[a].len() ==> (#[trigger] execution_levels[a][j])@
                        == names[levels[a][j] as int]@,
            decreases levels.len() - k,
        {
            let mut level: Vec<String> = Vec::new();
            let mut j: usize = 0;
            while j < levels[k].len()
                invariant
                    k < levels.len(),
                    j <= levels[k as int].len(),
                    names.len() == n,
                    rounds_done(names@, wants@, levels@, rank@),
                    level.len() == j,
                    forall|e: int|
                        0 <= e < j ==> (#[trigger] level[e])@ == names[levels[k as int][e] as int]@,
                decreases levels[k as int].len() - j,
            {
                let place = levels[k][j];
                level.push(names[place].clone());
                j = j + 1;
            }
            execution_levels.push(level);
            k = k + 1;
        }
        let ghost named = level_texts(execution_levels@);
        proof {
            lemma_ranks_acyclic(g, names@, wants@, levels@, rank@);
            assert forall|a: int, j: int|
                0 <= a < levels.len() && 0 <= j < levels[a].len() implies (#[trigger] named[a][j])
                == names[levels[a][j] as int]@ by {
                assert(named[a][j] == execution_levels[a][j]@);
            }
            lemma_rounds_leveled(g, names@, wants@, levels@, rank@, named);
        }
        let mut nodes: NameMap<WorkflowNode> = NameMap::new();
        let mut at: usize = 0;
        for workflow in it: workflows.into_iter()
            invariant
                at == it.index(),
                at <= workflows.len(),
                it.seq() == workflows@,
                g == graph_of(workflows@),
                distinct(g),
                nodes.pairs().len() == at,
                forall|j: int|
                    0 <= j < at ==> (#[trigger] nodes.pairs()[j]).0 == workflows[j].name@
                        && nodes.pairs()[j].1.workflow == workflows[j]
                        && nodes.pairs()[j].1.always == workflows[j].depends_on.always
                        && texts(nodes.pairs()[j].1.dependencies@) == texts(
                        workflows[j].depends_on.workflows@,
                    ),
        {
            let name = workflow.name.clone();
            let dependencies = copy_names(&workflow.depends_on.workflows);
            let always = workflow.depends_on.always;
            let ghost before = nodes.pairs();
            let earlier = nodes.insert(name, WorkflowNode { workflow, dependencies, always });
            proof {
                if earlier is Some {
                    let j = choose|j: int|
                        0 <= j < before.len() && before[j].0 == workflows[at as int].name@;
                    assert(g[j].name == g[at as int].name);
                }
                assert forall|j: int| 0 <= j < at + 1 implies (#[trigger] nodes.pairs()[j]).0
                    == workflows[j].name@ && nodes.pairs()[j].1.workflow == workflows[j]
                    && nodes.pairs()[j].1.always == workflows[j].depends_on.always && texts(
                    nodes.pairs()[j].1.dependencies@,
                ) == texts(workflows[j].depends_on.workflows@) by {
                    if j < at {
                        assert(nodes.pairs()[j] == before[j]);
                    }
                }
            }
            at = at + 1;
        }
        proof {
            assert(graph_of_nodes(nodes.pairs()) =~= g);
        }
        let dag = WorkflowDAG { nodes, execution_levels };
        proof {
            assert forall|i: int| 0 <= i < dag.entries().len() implies dag@.contains_key(
                (#[trigger] dag.entries()[i]).0,
            ) && dag@[dag.entries()[i].0] == dag.entries()[i].1 by {
                let entries = dag.entries();
                assert(crate::namemap::distinct_names(entries)) by {
                    assert forall|a: int, b: int|
                        0 <= a < entries.len() && 0 <= b < entries.len() && a != b implies entries[a].0
                        != entries[b].0 by {
                        assert(g[a].name == entries[a].0);
                        assert(g[b].name == entries[b].0);
                    }
                }
                crate::namemap::lemma_bindings_at(entries, i);
            }
        }
        Ok(dag)
    }

    /// A name is a node exactly when an entry carries it.
    pub proof fn lemma_entries(&self, name: Seq<char>)
        ensures
            self@.contains_key(name) <==> exists|i: int|
                0 <= i < self.entries().len() && (#[trigger] self.entries()[i]).0 == name,
    {
        crate::namemap::lemma_bindings_dom(self.entries(), name);
    }

    /// The levels in the order in which they can run, each sorted by name.
    pub fn execution_levels(&self) -> (levels: &Vec<Vec<String>>)
        ensures
            level_texts(levels@) == self.levels(),
            leveled(self.graph(), self.levels()),
            distinct(self.graph()),
            closed(self.graph()),
            acyclic(self.graph()),
    {
        proof {
            use_type_invariant(self);
        }
        &self.execution_levels
    }

    /// The node called `name`, if there is one.
    pub fn get_node(&self, name: &str) -> (r: Option<&WorkflowNode>)
        ensures
            match r {
                Some(node) => self@.contains_key(name@) && *node == self@[name@],
                None => !self@.contains_key(name@),
            },
    {
        self.nodes.get(name)
    }

    /// The workflow called `name`, if there is one.
    pub fn get_workflow(&self, name: &str) -> (r: Option<&Workflow>)
        ensures
            match r {
                Some(workflow) => self@.contains_key(name@) && *workflow == self@[name@].workflow,
                None => !self@.contains_key(name@),
            },
    {
        match self.nodes.get(name) {
            Some(node) => Some(&node.workflow),
            None => None,
        }
    }

    /// The names of the workflows, in the order in which they were given.
    pub fn workflow_names(&self) -> (names: Vec<&str>)
        ensures
            names.len() == self.entries().len(),
            forall|i: int| 0 <= i < names.len() ==> (#[trigger] names[i])@ == self.entries()[i].0,
    {
        let mut names: Vec<&str> = Vec::new();
        let mut i: usize = 0;
        while i < self.nodes.len()
            invariant
                i <= self.nodes.pairs().len(),
                names.len() == i,
                forall|j: int| 0 <= j < i ==> (#[trigger] names[j])@ == self.entries()[j].0,
            decreases self.nodes.pairs().len() - i,
        {
            names.push(self.nodes.name_at(i).as_str());
            i = i + 1;
        }
        names
    }

    /// The number of workflows.
    pub fn len(&self) -> (n: usize)
        ensures
            n == self.entries().len(),
    {
        self.nodes.len()
    }

    /// Whether the graph holds no workflow.
    pub fn is_empty(&self) -> (b: bool)
        ensures
            b == (self.entries().len() == 0),
    {
        self.nodes.is_empty()
    }
}

} // verus!
