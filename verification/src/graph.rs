//! Dependency graphs over names: what it means for one to be well formed,
//! to be free of cycles, to be ordered and to be cut into levels.

use vstd::prelude::*;
use crate::text::{lemma_text_lt_irreflexive, lemma_text_lt_total, lemma_text_lt_transitive, str_eq, str_lt, text_lt};

verus! {

/// A node of a dependency graph: its name and the names it needs.
pub struct Node {
    pub name: Seq<char>,
    pub needs: Seq<Seq<char>>,
}

/// Whether some node of `g` is called `name`.
pub open spec fn has_name(g: Seq<Node>, name: Seq<char>) -> bool {
    exists|i: int| 0 <= i < g.len() && (#[trigger] g[i]).name == name
}

/// Whether no two nodes share a name.
pub open spec fn distinct(g: Seq<Node>) -> bool {
    forall|i: int, j: int|
        0 <= i < g.len() && 0 <= j < g.len() && i != j ==> (#[trigger] g[i]).name != (
        #[trigger] g[j]).name
}

/// Whether every needed name is the name of a node.
pub open spec fn closed(g: Seq<Node>) -> bool {
    forall|i: int, k: int|
        0 <= i < g.len() && 0 <= k < g[i].needs.len() ==> has_name(g, #[trigger] g[i].needs[k])
}

/// Whether the node at place `a` needs the node at place `b`.
pub open spec fn needs(g: Seq<Node>, a: int, b: int) -> bool {
    0 <= a < g.len() && 0 <= b < g.len() && g[a].needs.contains(g[b].name)
}

/// Whether `rank` puts every node above all the nodes it needs.
pub open spec fn ranked(g: Seq<Node>, rank: spec_fn(int) -> nat) -> bool {
    forall|a: int, b: int| #[trigger] needs(g, a, b) ==> rank(b) < rank(a)
}

/// A graph is free of cycles when its nodes can be ranked so that each
/// stands above all it needs.
pub open spec fn acyclic(g: Seq<Node>) -> bool {
    exists|rank: spec_fn(int) -> nat| ranked(g, rank)
}

/// A walk along needs that comes back to itself: each node of `walk` needs
/// the next one, and the last needs a node of the walk.
pub open spec fn cycle_walk(g: Seq<Node>, walk: Seq<int>) -> bool {
    &&& walk.len() > 0
    &&& forall|k: int| 0 <= k < walk.len() ==> 0 <= #[trigger] walk[k] < g.len()
    &&& forall|k: int| 0 <= k < walk.len() - 1 ==> needs(g, #[trigger] walk[k], walk[k + 1])
    &&& exists|m: int| 0 <= m < walk.len() && needs(g, walk[walk.len() - 1], #[trigger] walk[m])
}

/// Along a walk the rank falls.
proof fn lemma_rank_falls(g: Seq<Node>, walk: Seq<int>, rank: spec_fn(int) -> nat, m: int, k: int)
    requires
        ranked(g, rank),
        forall|k: int| 0 <= k < walk.len() - 1 ==> needs(g, #[trigger] walk[k], walk[k + 1]),
        0 <= m <= k < walk.len(),
    ensures
        rank(walk[k]) <= rank(walk[m]),
    decreases k - m,
{
    if m < k {
        lemma_rank_falls(g, walk, rank, m, k - 1);
        assert(needs(g, walk[k - 1], walk[k - 1 + 1]));
    }
}

/// A graph with a walk that comes back to itself has a cycle.
pub proof fn lemma_cycle_walk_not_acyclic(g: Seq<Node>, walk: Seq<int>)
    requires
        cycle_walk(g, walk),
    ensures
        !acyclic(g),
{
    if acyclic(g) {
        let rank = choose|rank: spec_fn(int) -> nat| ranked(g, rank);
        let m = choose|m: int|
            0 <= m < walk.len() && needs(g, walk[walk.len() - 1], #[trigger] walk[m]);
        lemma_rank_falls(g, walk, rank, m, walk.len() - 1);
    }
}

/// Whether `name` stands in `order` at a place before `p`.
pub open spec fn stands_before(order: Seq<Seq<char>>, name: Seq<char>, p: int) -> bool {
    exists|q: int| 0 <= q < p && q < order.len() && #[trigger] order[q] == name
}

/// Whether `order` lists every node of `g` exactly once, each after all
/// the nodes it needs.
pub open spec fn topological(g: Seq<Node>, order: Seq<Seq<char>>) -> bool {
    &&& order.len() == g.len()
    &&& order.no_duplicates()
    &&& forall|p: int| 0 <= p < order.len() ==> has_name(g, #[trigger] order[p])
    &&& forall|i: int| 0 <= i < g.len() ==> order.contains((#[trigger] g[i]).name)
    &&& forall|p: int, i: int, k: int|
        0 <= p < order.len() && 0 <= i < g.len() && g[i].name == #[trigger] order[p] && 0 <= k
            < g[i].needs.len() ==> stands_before(order, #[trigger] g[i].needs[k], p)
}

/// Whether the names of `level` rise strictly in the order of strings.
pub open spec fn rising(level: Seq<Seq<char>>) -> bool {
    forall|a: int, b: int| 0 <= a < b < level.len() ==> text_lt(#[trigger] level[a], #[trigger] level[b])
}

/// Whether `name` stands in level `k` of `levels`.
pub open spec fn in_level(levels: Seq<Seq<Seq<char>>>, k: int, name: Seq<char>) -> bool {
    0 <= k < levels.len() && levels[k].contains(name)
}

/// Whether `name` stands in some level of `levels`.
pub open spec fn in_some_level(levels: Seq<Seq<Seq<char>>>, name: Seq<char>) -> bool {
    exists|k: int| in_level(levels, k, name)
}

/// Whether `name` stands in a level of `levels` before level `k`.
pub open spec fn in_level_below(levels: Seq<Seq<Seq<char>>>, k: int, name: Seq<char>) -> bool {
    exists|l: int| l < k && in_level(levels, l, name)
}

/// Whether `levels` is the level decomposition of `g`: every node stands in
/// one level, a node without needs in the first, any other in the level
/// after the last of those it needs; no level is empty, and each lists its
/// names in rising order.
pub open spec fn leveled(g: Seq<Node>, levels: Seq<Seq<Seq<char>>>) -> bool {
    &&& forall|k: int| 0 <= k < levels.len() ==> (#[trigger] levels[k]).len() > 0 && rising(levels[k])
    &&& forall|k: int, name: Seq<char>| #[trigger] in_level(levels, k, name) ==> has_name(g, name)
    &&& forall|i: int| 0 <= i < g.len() ==> in_some_level(levels, (#[trigger] g[i]).name)
    &&& forall|k: int, l: int, name: Seq<char>|
        #[trigger] in_level(levels, k, name) && #[trigger] in_level(levels, l, name) ==> k == l
    &&& forall|i: int, k: int, d: int|
        0 <= i < g.len() && #[trigger] in_level(levels, k, g[i].name) && 0 <= d < g[i].needs.len()
            ==> in_level_below(levels, k, #[trigger] g[i].needs[d])
    &&& forall|i: int, k: int|
        0 <= i < g.len() && #[trigger] in_level(levels, k, g[i].name) && k > 0 ==> exists|d: int|
            0 <= d < g[i].needs.len() && in_level(levels, k - 1, #[trigger] g[i].needs[d])
}

/// Two rising lists that hold the same names are the same list.
pub proof fn lemma_rising_equal(x: Seq<Seq<char>>, y: Seq<Seq<char>>)
    requires
        rising(x),
        rising(y),
        forall|name: Seq<char>| x.contains(name) <==> y.contains(name),
    ensures
        x == y,
    decreases x.len(),
{
    if x.len() == 0 {
        if y.len() > 0 {
            assert(y.contains(y[0]));
        }
        assert(x =~= y);
    } else {
        let top = x[x.len() - 1];
        assert(x.contains(top));
        assert(y.len() > 0);
        let other = y[y.len() - 1];
        assert(y.contains(other));
        let j = choose|j: int| 0 <= j < y.len() && y[j] == top;
        let i = choose|i: int| 0 <= i < x.len() && x[i] == other;
        if j < y.len() - 1 {
            assert(text_lt(y[j], y[y.len() - 1]));
            if i < x.len() - 1 {
                assert(text_lt(x[i], x[x.len() - 1]));
                lemma_text_lt_transitive(top, other, top);
            }
            lemma_text_lt_irreflexive(top);
        }
        assert(top == other);
        let xf = x.drop_last();
        let yf = y.drop_last();
        assert forall|name: Seq<char>| xf.contains(name) <==> yf.contains(name) by {
            if xf.contains(name) {
                let a = choose|a: int| 0 <= a < xf.len() && xf[a] == name;
                assert(x[a] == name);
                assert(text_lt(x[a], x[x.len() - 1]));
                assert(x.contains(name));
                let b = choose|b: int| 0 <= b < y.len() && y[b] == name;
                if b == y.len() - 1 {
                    lemma_text_lt_irreflexive(top);
                }
                assert(yf[b] == name);
            }
            if yf.contains(name) {
                let b = choose|b: int| 0 <= b < yf.len() && yf[b] == name;
                assert(y[b] == name);
                assert(text_lt(y[b], y[y.len() - 1]));
                assert(y.contains(name));
                let a = choose|a: int| 0 <= a < x.len() && x[a] == name;
                if a == x.len() - 1 {
                    lemma_text_lt_irreflexive(top);
                }
                assert(xf[a] == name);
            }
        }
        assert(rising(xf)) by {
            assert forall|a: int, b: int| 0 <= a < b < xf.len() implies text_lt(
                #[trigger] xf[a],
                #[trigger] xf[b],
            ) by {
                assert(xf[a] == x[a] && xf[b] == x[b]);
            }
        }
        assert(rising(yf)) by {
            assert forall|a: int, b: int| 0 <= a < b < yf.len() implies text_lt(
                #[trigger] yf[a],
                #[trigger] yf[b],
            ) by {
                assert(yf[a] == y[a] && yf[b] == y[b]);
            }
        }
        lemma_rising_equal(xf, yf);
        assert(x =~= xf.push(top));
        assert(y =~= yf.push(other));
    }
}

/// A node stands at the same level in any two level decompositions of one
/// graph.
pub proof fn lemma_same_level(
    g: Seq<Node>,
    a: Seq<Seq<Seq<char>>>,
    b: Seq<Seq<Seq<char>>>,
    i: int,
    k: int,
)
    requires
        leveled(g, a),
        leveled(g, b),
        0 <= i < g.len(),
        in_level(a, k, g[i].name),
    ensures
        in_level(b, k, g[i].name),
    decreases k,
{
    assert(in_some_level(b, g[i].name));
    let l = choose|l: int| in_level(b, l, g[i].name);
    if k > 0 {
        let d = choose|d: int|
            0 <= d < g[i].needs.len() && in_level(a, k - 1, #[trigger] g[i].needs[d]);
        let need = g[i].needs[d];
        assert(has_name(g, need));
        let j = choose|j: int| 0 <= j < g.len() && (#[trigger] g[j]).name == need;
        lemma_same_level(g, a, b, j, k - 1);
        assert(in_level_below(b, l, g[i].needs[d]));
        let lb = choose|lb: int| lb < l && in_level(b, lb, need);
        assert(lb == k - 1);
    }
    if l > k {
        let e = choose|e: int|
            0 <= e < g[i].needs.len() && in_level(b, l - 1, #[trigger] g[i].needs[e]);
        let need = g[i].needs[e];
        assert(in_level_below(a, k, g[i].needs[e]));
        let la = choose|la: int| la < k && in_level(a, la, need);
        assert(has_name(g, need));
        let j = choose|j: int| 0 <= j < g.len() && (#[trigger] g[j]).name == need;
        lemma_same_level(g, a, b, j, la);
        assert(la == l - 1);
    }
}

/// A graph has one level decomposition: any two are the same.
pub proof fn lemma_levels_unique(g: Seq<Node>, a: Seq<Seq<Seq<char>>>, b: Seq<Seq<Seq<char>>>)
    requires
        leveled(g, a),
        leveled(g, b),
    ensures
        a == b,
{
    if a.len() > b.len() {
        let k = b.len() as int;
        assert(a[k].len() > 0);
        let name = a[k][0];
        assert(in_level(a, k, name));
        let i = choose|i: int| 0 <= i < g.len() && (#[trigger] g[i]).name == name;
        lemma_same_level(g, a, b, i, k);
    }
    if b.len() > a.len() {
        let k = a.len() as int;
        assert(b[k].len() > 0);
        let name = b[k][0];
        assert(in_level(b, k, name));
        let i = choose|i: int| 0 <= i < g.len() && (#[trigger] g[i]).name == name;
        lemma_same_level(g, b, a, i, k);
    }
    assert forall|k: int| 0 <= k < a.len() implies a[k] == b[k] by {
        assert forall|name: Seq<char>| a[k].contains(name) <==> b[k].contains(name) by {
            if a[k].contains(name) {
                assert(in_level(a, k, name));
                let i = choose|i: int| 0 <= i < g.len() && (#[trigger] g[i]).name == name;
                lemma_same_level(g, a, b, i, k);
            }
            if b[k].contains(name) {
                assert(in_level(b, k, name));
                let i = choose|i: int| 0 <= i < g.len() && (#[trigger] g[i]).name == name;
                lemma_same_level(g, b, a, i, k);
            }
        }
        lemma_rising_equal(a[k], b[k]);
    }
    assert(a =~= b);
}

/// Whether the names in `names` are pairwise different.
pub open spec fn all_differ(names: Seq<String>) -> bool {
    forall|a: int, b: int| 0 <= a < b < names.len() ==> (#[trigger] names[a])@ != (#[trigger] names[b])@
}

/// The first place at which `names` holds `name`.
pub fn find_place(names: &Vec<String>, name: &str) -> (r: Option<usize>)
    ensures
        match r {
            Some(i) => i < names.len() && names[i as int]@ == name@ && forall|j: int|
                0 <= j < i ==> (#[trigger] names[j])@ != name@,
            None => forall|j: int| 0 <= j < names.len() ==> (#[trigger] names[j])@ != name@,
        },
{
    let mut i: usize = 0;
    while i < names.len()
        invariant
            i <= names.len(),
            forall|j: int| 0 <= j < i ==> (#[trigger] names[j])@ != name@,
        decreases names.len() - i,
    {
        if str_eq(names[i].as_str(), name) {
            return Some(i);
        }
        i = i + 1;
    }
    None
}

/// The first place whose name stands at an earlier place too.
pub fn first_repeat(names: &Vec<String>) -> (r: Option<usize>)
    ensures
        match r {
            Some(i) => i < names.len() && (exists|j: int|
                0 <= j < i && (#[trigger] names[j])@ == names[i as int]@) && all_differ(
                names@.subrange(0, i as int),
            ),
            None => all_differ(names@),
        },
{
    let mut i: usize = 0;
    while i < names.len()
        invariant
            i <= names.len(),
            all_differ(names@.subrange(0, i as int)),
        decreases names.len() - i,
    {
        match find_place(names, names[i].as_str()) {
            Some(j) => {
                if j < i {
                    return Some(i);
                }
            },
            None => {},
        }
        proof {
            let next = names@.subrange(0, i + 1);
            let now = names@.subrange(0, i as int);
            assert forall|a: int, b: int| 0 <= a < b < next.len() implies (#[trigger] next[a])@
                != (#[trigger] next[b])@ by {
                if b < i {
                    assert(now[a]@ != now[b]@);
                } else {
                    assert(names[a]@ != names[i as int]@);
                }
            }
        }
        i = i + 1;
    }
    assert(names@.subrange(0, names.len() as int) == names@);
    None
}

/// Whether `places` holds the place `i`.
pub open spec fn holds(places: Seq<usize>, i: int) -> bool {
    exists|p: int| 0 <= p < places.len() && #[trigger] places[p] == i
}

/// Whether `places` lists every place below `n` and no other.
pub open spec fn lists_all(places: Seq<usize>, n: int) -> bool {
    &&& forall|p: int| 0 <= p < places.len() ==> (#[trigger] places[p]) < n
    &&& forall|i: int| 0 <= i < n ==> #[trigger] holds(places, i)
}

/// Whether the names at `places` rise strictly in the order of strings.
pub open spec fn rising_at(names: Seq<String>, places: Seq<usize>) -> bool {
    forall|p: int, q: int|
        0 <= p < q < places.len() ==> text_lt(
            names[(#[trigger] places[p]) as int]@,
            names[(#[trigger] places[q]) as int]@,
        )
}

/// The places of `names`, ordered by name.
pub fn sorted_places(names: &Vec<String>) -> (places: Vec<usize>)
    requires
        all_differ(names@),
    ensures
        places.len() == names.len(),
        lists_all(places@, names.len() as int),
        rising_at(names@, places@),
{
    let mut places: Vec<usize> = Vec::new();
    let mut i: usize = 0;
    while i < names.len()
        invariant
            i <= names.len(),
            all_differ(names@),
            places.len() == i,
            lists_all(places@, i as int),
            rising_at(names@, places@),
        decreases names.len() - i,
    {
        let mut at: usize = 0;
        while at < places.len() && !str_lt(names[i].as_str(), names[places[at]].as_str())
            invariant
                at <= places.len(),
                i < names.len(),
                places.len() == i,
                lists_all(places@, i as int),
                forall|p: int|
                    0 <= p < at ==> !text_lt(names[i as int]@, names[(#[trigger] places[p]) as int]@),
            decreases places.len() - at,
        {
            at = at + 1;
        }
        let ghost before = places@;
        places.insert(at, i);
        proof {
            let after = places@;
            assert(after == before.insert(at as int, i));
            assert forall|p: int| 0 <= p < after.len() implies (#[trigger] after[p]) < i + 1 by {
                if p < at {
                    assert(after[p] == before[p]);
                } else if p > at {
                    assert(after[p] == before[p - 1]);
                }
            }
            assert forall|j: int| 0 <= j < i + 1 implies #[trigger] holds(after, j) by {
                if j == i {
                    assert(after[at as int] == j);
                } else {
                    assert(holds(before, j));
                    let p = choose|p: int| 0 <= p < before.len() && #[trigger] before[p] == j;
                    if p < at {
                        assert(after[p] == j);
                    } else {
                        assert(after[p + 1] == before[p]);
                    }
                }
            }
            assert forall|p: int, q: int| 0 <= p < q < after.len() implies text_lt(
                names[(#[trigger] after[p]) as int]@,
                names[(#[trigger] after[q]) as int]@,
            ) by {
                let mine = names[i as int]@;
                if q < at {
                    assert(after[p] == before[p] && after[q] == before[q]);
                } else if q == at {
                    assert(after[p] == before[p]);
                    let other = names[before[p] as int]@;
                    assert(before[p] < i);
                    assert(!text_lt(mine, other));
                    assert(names[before[p] as int]@ != names[i as int]@);
                    lemma_text_lt_total(mine, other);
                } else if p == at {
                    assert(after[q] == before[q - 1]);
                    assert(text_lt(mine, names[before[at as int] as int]@));
                    if q - 1 > at {
                        assert(text_lt(names[before[at as int] as int]@, names[before[q - 1] as int]@));
                        lemma_text_lt_transitive(
                            mine,
                            names[before[at as int] as int]@,
                            names[before[q - 1] as int]@,
                        );
                    }
                } else if p < at {
                    assert(after[p] == before[p] && after[q] == before[q - 1]);
                } else {
                    assert(after[p] == before[p - 1] && after[q] == before[q - 1]);
                }
            }
        }
        i = i + 1;
    }
    places
}

/// Whether every place that `wants` refers to is a place of the graph.
pub open spec fn in_range(wants: Seq<Vec<usize>>) -> bool {
    forall|i: int, d: int|
        0 <= i < wants.len() && 0 <= d < wants[i].len() ==> (#[trigger] wants[i][d]) < wants.len()
}

/// Whether all that place `i` wants has a rank below `rank.len()`, which
/// is to say: has been put into a level.
pub open spec fn ready(wants: Seq<Vec<usize>>, rank: Seq<usize>, i: int) -> bool {
    forall|d: int| 0 <= d < wants[i].len() ==> rank[(#[trigger] wants[i][d]) as int] < rank.len()
}

/// Whether place `i` ranks above all it wants.
pub open spec fn above(wants: Seq<Vec<usize>>, rank: Seq<usize>, i: int) -> bool {
    forall|d: int| 0 <= d < wants[i].len() ==> rank[(#[trigger] wants[i][d]) as int] < rank[i]
}

/// Whether place `i` wants a place of rank `v`.
pub open spec fn touches(wants: Seq<Vec<usize>>, rank: Seq<usize>, i: int, v: int) -> bool {
    exists|d: int| 0 <= d < wants[i].len() && rank[(#[trigger] wants[i][d]) as int] == v
}

/// What [`level_rounds`] hands back: the levels as places, and each
/// place's rank, `rank.len()` standing for a place that is in no level.
pub open spec fn rounds_done(
    names: Seq<String>,
    wants: Seq<Vec<usize>>,
    levels: Seq<Vec<usize>>,
    rank: Seq<usize>,
) -> bool {
    let n = names.len();
    &&& rank.len() == n
    &&& forall|i: int| 0 <= i < n ==> (#[trigger] rank[i]) <= n
    &&& forall|k: int|
        0 <= k < levels.len() ==> (#[trigger] levels[k]).len() > 0 && rising_at(names, levels[k]@)
    &&& forall|k: int, j: int|
        0 <= k < levels.len() && 0 <= j < levels[k].len() ==> (#[trigger] levels[k][j]) < n
            && rank[levels[k][j] as int] == k
    &&& forall|i: int|
        0 <= i < n && (#[trigger] rank[i]) < n ==> rank[i] < levels.len() && holds(
            levels[rank[i] as int]@,
            i,
        )
    &&& forall|i: int| 0 <= i < n && (#[trigger] rank[i]) < n ==> above(wants, rank, i)
    &&& forall|i: int|
        0 <= i < n && 0 < (#[trigger] rank[i]) < n ==> touches(wants, rank, i, rank[i] - 1)
    &&& forall|i: int| 0 <= i < n && (#[trigger] rank[i]) == n ==> touches(wants, rank, i, n as int)
}

/// Whether all that place `i` wants is in a level.
fn is_ready(wants: &Vec<Vec<usize>>, rank: &Vec<usize>, i: usize) -> (r: bool)
    requires
        i < wants.len(),
        rank.len() == wants.len(),
        in_range(wants@),
    ensures
        r == ready(wants@, rank@, i as int),
{
    let mut d: usize = 0;
    while d < wants[i].len()
        invariant
            i < wants.len(),
            rank.len() == wants.len(),
            in_range(wants@),
            d <= wants[i as int].len(),
            forall|e: int| 0 <= e < d ==> rank[(#[trigger] wants[i as int][e]) as int] < rank.len(),
        decreases wants[i as int].len() - d,
    {
        let w = wants[i][d];
        if rank[w] >= rank.len() {
            return false;
        }
        d = d + 1;
    }
    true
}

/// Cuts the graph into levels, round by round: a round takes, in the order
/// of `places`, every place not yet in a level whose wants all are, and
/// makes them the next level. It ends with the round that takes nothing.
pub fn level_rounds(names: &Vec<String>, places: &Vec<usize>, wants: &Vec<Vec<usize>>) -> (r: (
    Vec<Vec<usize>>,
    Vec<usize>,
))
    requires
        wants.len() == names.len(),
        in_range(wants@),
        lists_all(places@, names.len() as int),
        rising_at(names@, places@),
    ensures
        rounds_done(names@, wants@, r.0@, r.1@),
{
    let n = names.len();
    let mut rank: Vec<usize> = Vec::new();
    let mut i: usize = 0;
    while i < n
        invariant
            i <= n,
            rank.len() == i,
            forall|j: int| 0 <= j < i ==> (#[trigger] rank[j]) == n,
        decreases n - i,
    {
        rank.push(n);
        i = i + 1;
    }
    let mut levels: Vec<Vec<usize>> = Vec::new();
    let mut placed: usize = 0;
    let ghost mut done: Set<int> = Set::empty();
    loop
        invariant_except_break
            levels.len() <= placed,
        invariant
            n == names.len(),
            wants.len() == n,
            rank.len() == n,
            in_range(wants@),
            lists_all(places@, n as int),
            rising_at(names@, places@),
            placed <= n,
            done.finite(),
            done.len() == placed,
            forall|i: int| done.contains(i) <==> 0 <= i < n && rank[i] < n,
            forall|i: int| 0 <= i < n ==> (#[trigger] rank[i]) <= n,
            forall|i: int| 0 <= i < n && (#[trigger] rank[i]) < n ==> rank[i] < levels.len(),
            forall|k: int|
                0 <= k < levels.len() ==> (#[trigger] levels[k]).len() > 0 && rising_at(
                    names@,
                    levels[k]@,
                ),
            forall|k: int, j: int|
                0 <= k < levels.len() && 0 <= j < levels[k].len() ==> (#[trigger] levels[k][j]) < n
                    && rank[levels[k][j] as int] == k,
            forall|i: int|
                0 <= i < n && (#[trigger] rank[i]) < n ==> holds(levels[rank[i] as int]@, i),
            forall|i: int| 0 <= i < n && (#[trigger] rank[i]) < n ==> above(wants@, rank@, i),
            forall|i: int|
                0 <= i < n && 0 < (#[trigger] rank[i]) < n ==> touches(
                    wants@,
                    rank@,
                    i,
                    rank[i] - 1,
                ),
            levels.len() > 0 ==> forall|i: int|
                0 <= i < n && (#[trigger] rank[i]) == n ==> touches(wants@, rank@, i, n as int)
                    || touches(wants@, rank@, i, levels.len() - 1),
        ensures
            forall|i: int|
                0 <= i < n && (#[trigger] rank[i]) == n ==> touches(wants@, rank@, i, n as int),
        decreases n - placed,
    {
        let k = levels.len();
        let mut current: Vec<usize> = Vec::new();
        let mut p: usize = 0;
        while p < places.len()
            invariant
                p <= places.len(),
                n == names.len(),
                wants.len() == n,
                rank.len() == n,
                in_range(wants@),
                lists_all(places@, n as int),
                rising_at(names@, places@),
                rising_at(names@, current@),
                forall|j: int|
                    0 <= j < current.len() ==> (#[trigger] current[j]) < n && rank[current[j] as int]
                        == n && ready(wants@, rank@, current[j] as int),
                forall|j: int|
                    0 <= j < current.len() ==> exists|q: int|
                        0 <= q < p && places[q] == #[trigger] current[j],
                forall|q: int|
                    0 <= q < p && rank[(#[trigger] places[q]) as int] == n && ready(
                        wants@,
                        rank@,
                        places[q] as int,
                    ) ==> holds(current@, places[q] as int),
            decreases places.len() - p,
        {
            let i = places[p];
            if rank[i] == n && is_ready(wants, &rank, i) {
                let ghost before = current@;
                current.push(i);
                proof {
                    assert forall|a: int, b: int| 0 <= a < b < current.len() implies text_lt(
                        names[(#[trigger] current[a]) as int]@,
                        names[(#[trigger] current[b]) as int]@,
                    ) by {
                        if b < before.len() {
                            assert(current[a] == before[a] && current[b] == before[b]);
                        } else {
                            assert(current[a] == before[a]);
                            let q = choose|q: int| 0 <= q < p && places[q] == before[a];
                            assert(text_lt(names[places[q] as int]@, names[places[p as int] as int]@));
                        }
                    }
                    assert forall|j: int| 0 <= j < current.len() implies exists|q: int|
                        0 <= q < p + 1 && places[q] == #[trigger] current[j] by {
                        if j < before.len() {
                            assert(current[j] == before[j]);
                            let q = choose|q: int| 0 <= q < p && places[q] == before[j];
                            assert(places[q] == current[j]);
                        } else {
                            assert(places[p as int] == current[j]);
                        }
                    }
                    assert forall|q: int|
                        0 <= q < p + 1 && rank[(#[trigger] places[q]) as int] == n && ready(
                            wants@,
                            rank@,
                            places[q] as int,
                        ) implies holds(current@, places[q] as int) by {
                        if q < p {
                            assert(holds(before, places[q] as int));
                            let j = choose|j: int|
                                0 <= j < before.len() && #[trigger] before[j] == places[q] as int;
                            assert(current[j] == places[q]);
                        } else {
                            assert(current[before.len() as int] == places[q]);
                        }
                    }
                }
            }
            p = p + 1;
        }
        if current.len() == 0 {
            proof {
                assert forall|i: int| 0 <= i < n && (#[trigger] rank[i]) == n implies touches(
                    wants@,
                    rank@,
                    i,
                    n as int,
                ) by {
                    assert(holds(places@, i));
                    let q = choose|q: int| 0 <= q < places.len() && #[trigger] places[q] == i;
                    if ready(wants@, rank@, i) {
                        assert(holds(current@, places[q] as int));
                    }
                    let d = choose|d: int|
                        0 <= d < wants[i].len() && !(rank[(#[trigger] wants[i][d]) as int]
                            < rank.len());
                    assert(rank[wants[i][d] as int] == n);
                }
            }
            break;
        }
        let ghost old_rank = rank@;
        let ghost old_placed = placed;
        let mut j: usize = 0;
        while j < current.len()
            invariant
                j <= current.len(),
                current.len() > 0,
                rank.len() == n,
                k <= old_placed,
                old_placed <= placed <= n,
                j > 0 ==> placed > old_placed,
                j == 0 ==> rank@ == old_rank,
                old_rank.len() == n,
                done.finite(),
                done.len() == placed,
                forall|i: int| done.contains(i) <==> 0 <= i < n && rank[i] < n,
                forall|e: int|
                    0 <= e < current.len() ==> (#[trigger] current[e]) < n
                        && old_rank[current[e] as int] == n,
                forall|e: int| 0 <= e < j ==> rank[(#[trigger] current[e]) as int] == k,
                forall|i: int|
                    0 <= i < n ==> (#[trigger] rank[i]) == old_rank[i] || (old_rank[i] == n
                        && rank[i] == k && holds(current@, i)),
            decreases current.len() - j,
        {
            let c = current[j];
            if rank[c] == n {
                proof {
                    let more = done.insert(c as int);
                    vstd::set_lib::lemma_int_range(0, n as int);
                    assert(more.subset_of(vstd::set_lib::set_int_range(0, n as int)));
                    vstd::set_lib::lemma_len_subset(more, vstd::set_lib::set_int_range(0, n as int));
                    done = more;
                }
                rank.set(c, k);
                placed = placed + 1;
            }
            j = j + 1;
        }
        let ghost front = levels@;
        levels.push(current);
        proof {
            assert forall|i: int| 0 <= i < n && (#[trigger] rank[i]) < n implies rank[i]
                < levels.len() && holds(levels[rank[i] as int]@, i) && above(wants@, rank@, i) by {
                if rank[i] == old_rank[i] {
                    assert(levels[rank[i] as int] == front[rank[i] as int]);
                    assert(above(wants@, old_rank, i));
                    assert forall|d: int| 0 <= d < wants[i].len() implies rank[(
                    #[trigger] wants[i][d]) as int] < rank[i] by {
                        let w = wants[i][d] as int;
                        assert(old_rank[w] < old_rank[i]);
                        assert(rank[w] == old_rank[w]);
                    }
                } else {
                    assert(levels[k as int]@ == current@);
                    let e = choose|e: int| 0 <= e < current.len() && #[trigger] current[e] == i;
                    assert(ready(wants@, old_rank, current[e] as int));
                    assert forall|d: int| 0 <= d < wants[i].len() implies rank[(
                    #[trigger] wants[i][d]) as int] < rank[i] by {
                        let w = wants[i][d] as int;
                        assert(old_rank[w] < n);
                        assert(rank[w] == old_rank[w]);
                    }
                }
            }
            assert forall|i: int| 0 <= i < n && 0 < (#[trigger] rank[i]) < n implies touches(
                wants@,
                rank@,
                i,
                rank[i] - 1,
            ) by {
                if rank[i] == old_rank[i] {
                    assert(touches(wants@, old_rank, i, old_rank[i] - 1));
                    let d = choose|d: int|
                        0 <= d < wants[i].len() && old_rank[(#[trigger] wants[i][d]) as int]
                            == old_rank[i] - 1;
                    assert(rank[wants[i][d] as int] == old_rank[wants[i][d] as int]);
                } else {
                    let e = choose|e: int| 0 <= e < current.len() && #[trigger] current[e] == i;
                    assert(ready(wants@, old_rank, current[e] as int));
                    assert(touches(wants@, old_rank, i, n as int) || touches(
                        wants@,
                        old_rank,
                        i,
                        k - 1,
                    ));
                    if touches(wants@, old_rank, i, n as int) {
                        let d = choose|d: int|
                            0 <= d < wants[i].len() && old_rank[(#[trigger] wants[i][d]) as int]
                                == n;
                        assert(old_rank[wants[i][d] as int] < n);
                    }
                    let d = choose|d: int|
                        0 <= d < wants[i].len() && old_rank[(#[trigger] wants[i][d]) as int] == k
                            - 1;
                    assert(rank[wants[i][d] as int] == old_rank[wants[i][d] as int]);
                }
            }
            assert forall|i: int| 0 <= i < n && (#[trigger] rank[i]) == n implies touches(
                wants@,
                rank@,
                i,
                n as int,
            ) || touches(wants@, rank@, i, levels.len() - 1) by {
                assert(old_rank[i] == n);
                assert(holds(places@, i));
                let q = choose|q: int| 0 <= q < places.len() && #[trigger] places[q] == i;
                if ready(wants@, old_rank, i) {
                    assert(holds(current@, places[q] as int));
                    let e = choose|e: int| 0 <= e < current.len() && #[trigger] current[e] == i;
                    assert(rank[current[e] as int] == k);
                }
                let d = choose|d: int|
                    0 <= d < wants[i].len() && !(old_rank[(#[trigger] wants[i][d]) as int]
                        < old_rank.len());
                let w = wants[i][d] as int;
                assert(old_rank[w] == n);
                assert(rank[w] == n || rank[w] == k);
            }
            assert forall|a: int, b: int|
                0 <= a < levels.len() && 0 <= b < levels[a].len() implies (
            #[trigger] levels[a][b]) < n && rank[levels[a][b] as int] == a by {
                if a < k {
                    assert(levels[a] == front[a]);
                    let i = front[a][b] as int;
                    assert(old_rank[i] == a);
                }
            }
            assert forall|a: int| 0 <= a < levels.len() implies (#[trigger] levels[a]).len() > 0
                && rising_at(names@, levels[a]@) by {
                if a < k {
                    assert(levels[a] == front[a]);
                }
            }
        }
    }
    (levels, rank)
}

/// Whether place `a` wants place `b`.
pub open spec fn wants_place(wants: Seq<Vec<usize>>, a: int, b: int) -> bool {
    exists|d: int| 0 <= d < wants[a].len() && (#[trigger] wants[a][d]) == b
}

/// Whether place `b` stands in `order` before position `q`.
pub open spec fn placed_before(order: Seq<usize>, b: int, q: int) -> bool {
    exists|e: int| 0 <= e < q && e < order.len() && (#[trigger] order[e]) == b
}

/// How many places a walk has not reached yet.
pub open spec fn fresh(mark: Seq<u8>) -> nat
    decreases mark.len(),
{
    if mark.len() == 0 {
        0
    } else {
        fresh(mark.drop_last()) + if mark.last() == 0 {
            1nat
        } else {
            0nat
        }
    }
}

/// Marking a place changes the count of fresh places by that place alone.
pub proof fn lemma_fresh_update(mark: Seq<u8>, i: int, v: u8)
    requires
        0 <= i < mark.len(),
    ensures
        fresh(mark.update(i, v)) + (if mark[i] == 0 { 1nat } else { 0nat }) == fresh(mark) + (if v == 0 { 1nat } else { 0nat }),
    decreases mark.len(),
{
    let after = mark.update(i, v);
    if i == mark.len() - 1 {
        assert(after.drop_last() == mark.drop_last());
    } else {
        assert(after.drop_last() == mark.drop_last().update(i, v));
        lemma_fresh_update(mark.drop_last(), i, v);
    }
}

/// Where no place is fresh the count is zero.
pub proof fn lemma_fresh_none(mark: Seq<u8>)
    requires
        forall|i: int| 0 <= i < mark.len() ==> (#[trigger] mark[i]) != 0,
    ensures
        fresh(mark) == 0,
    decreases mark.len(),
{
    if mark.len() > 0 {
        assert forall|i: int| 0 <= i < mark.drop_last().len() implies (#[trigger] mark.drop_last()[i])
            != 0 by {
            assert(mark.drop_last()[i] == mark[i]);
        }
        lemma_fresh_none(mark.drop_last());
    }
}

/// The state of a walk in depth: `mark` is 0 for a fresh place, 1 for one
/// on the way and 2 for one that is done; `path` is the way from the place
/// where the walk began to where it stands; `order` lists the places that
/// are done, each after all it wants.
pub open spec fn walking(
    wants: Seq<Vec<usize>>,
    mark: Seq<u8>,
    order: Seq<usize>,
    path: Seq<usize>,
) -> bool {
    let n = wants.len();
    &&& mark.len() == n
    &&& forall|i: int| 0 <= i < n ==> (#[trigger] mark[i]) <= 2
    &&& order.len() + path.len() + fresh(mark) == n
    &&& forall|p: int| 0 <= p < path.len() ==> (#[trigger] path[p]) < n && mark[path[p] as int] == 1
    &&& forall|i: int| 0 <= i < n && (#[trigger] mark[i]) == 1 ==> holds(path, i)
    &&& apart(path)
    &&& forall|p: int|
        0 <= p < path.len() - 1 ==> wants_place(wants, (#[trigger] path[p]) as int, path[p + 1] as int)
    &&& forall|q: int| 0 <= q < order.len() ==> (#[trigger] order[q]) < n && mark[order[q] as int] == 2
    &&& forall|i: int| 0 <= i < n && (#[trigger] mark[i]) == 2 ==> holds(order, i)
    &&& forall|q: int, r: int|
        0 <= q < order.len() && 0 <= r < order.len() && q != r ==> (#[trigger] order[q]) != (
        #[trigger] order[r])
    &&& forall|q: int, d: int|
        0 <= q < order.len() && 0 <= d < wants[order[q] as int].len() ==> placed_before(
            order,
            (#[trigger] wants[order[q] as int][d]) as int,
            q,
        )
}

/// Whether no place stands twice on `path`.
pub open spec fn apart(path: Seq<usize>) -> bool {
    forall|p: int, q: int|
        0 <= p < path.len() && 0 <= q < path.len() && p != q ==> (#[trigger] path[p]) != (
        #[trigger] path[q])
}

/// Whether `path` is a way along wants whose last place wants a place of
/// the way.
pub open spec fn closing(wants: Seq<Vec<usize>>, path: Seq<usize>) -> bool {
    &&& path.len() > 0
    &&& forall|p: int| 0 <= p < path.len() ==> (#[trigger] path[p]) < wants.len()
    &&& forall|p: int|
        0 <= p < path.len() - 1 ==> wants_place(wants, (#[trigger] path[p]) as int, path[p + 1] as int)
    &&& exists|m: int|
        0 <= m < path.len() && wants_place(wants, path[path.len() - 1] as int, (#[trigger] path[m]) as int)
}

/// Walks from place `i` in depth: first all that `i` wants, in their
/// order, then `i` itself. Hands back `false` where the walk meets a place
/// that is on its way; `path` then is the way on which it stood.
pub fn visit(
    i: usize,
    wants: &Vec<Vec<usize>>,
    mark: &mut Vec<u8>,
    order: &mut Vec<usize>,
    path: &mut Vec<usize>,
) -> (ok: bool)
    requires
        in_range(wants@),
        i < wants.len(),
        walking(wants@, old(mark)@, old(order)@, old(path)@),
        old(path).len() > 0 ==> wants_place(
            wants@,
            old(path)[old(path).len() - 1] as int,
            i as int,
        ),
    ensures
        ok ==> walking(wants@, final(mark)@, final(order)@, final(path)@) && final(path)@ == old(
            path,
        )@ && final(mark)[i as int] == 2 && (forall|j: int|
            0 <= j < wants.len() && old(mark)[j] != 0 ==> #[trigger] final(mark)[j] == old(mark)[j])
            && fresh(final(mark)@) <= fresh(old(mark)@),
        !ok ==> closing(wants@, final(path)@) && apart(final(path)@),
    decreases fresh(old(mark)@),
{
    if mark[i] == 1 {
        proof {
            assert(holds(path@, i as int));
            let m = choose|m: int| 0 <= m < path.len() && #[trigger] path[m] == i as int;
            assert(wants_place(wants@, path[path.len() - 1] as int, path[m] as int));
        }
        return false;
    }
    if mark[i] == 2 {
        return true;
    }
    let ghost mark0 = mark@;
    let ghost order0 = order@;
    let ghost path0 = path@;
    proof {
        lemma_fresh_update(mark@, i as int, 1);
    }
    mark.set(i, 1);
    path.push(i);
    proof {
        assert(apart(path@)) by {
            assert forall|p: int, q: int|
                0 <= p < path.len() && 0 <= q < path.len() && p != q implies (#[trigger] path[p])
                != (#[trigger] path[q]) by {
                if p < path0.len() {
                    assert(path[p] == path0[p]);
                    assert(mark0[path0[p] as int] == 1);
                }
                if q < path0.len() {
                    assert(path[q] == path0[q]);
                    assert(mark0[path0[q] as int] == 1);
                }
            }
        }
        assert forall|p: int| 0 <= p < path.len() implies (#[trigger] path[p]) < wants.len()
            && mark[path[p] as int] == 1 by {
            if p < path0.len() {
                assert(path[p] == path0[p]);
            }
        }
        assert forall|j: int| 0 <= j < wants.len() && (#[trigger] mark[j]) == 1 implies holds(
            path@,
            j,
        ) by {
            if j == i {
                assert(path[path0.len() as int] == i);
            } else {
                assert(mark0[j] == 1);
                assert(holds(path0, j));
                let m = choose|m: int| 0 <= m < path0.len() && #[trigger] path0[m] == j;
                assert(path[m] == j);
            }
        }
        assert forall|p: int| 0 <= p < path.len() - 1 implies wants_place(
            wants@,
            (#[trigger] path[p]) as int,
            path[p + 1] as int,
        ) by {
            if p < path0.len() - 1 {
                assert(path[p] == path0[p] && path[p + 1] == path0[p + 1]);
            } else {
                assert(path[p] == path0[path0.len() - 1]);
            }
        }
        assert forall|q: int| 0 <= q < order.len() implies (#[trigger] order[q]) < wants.len()
            && mark[order[q] as int] == 2 by {
            assert(mark0[order0[q] as int] == 2);
        }
        assert forall|j: int| 0 <= j < wants.len() && (#[trigger] mark[j]) == 2 implies holds(
            order@,
            j,
        ) by {
            assert(mark0[j] == 2);
        }
    }
    let mut d: usize = 0;
    while d < wants[i].len()
        invariant
            in_range(wants@),
            i < wants.len(),
            d <= wants[i as int].len(),
            walking(wants@, mark@, order@, path@),
            path@ == path0.push(i),
            mark0 == old(mark)@,
            mark0.len() == wants.len(),
            mark0[i as int] == 0,
            mark[i as int] == 1,
            forall|j: int|
                0 <= j < wants.len() && mark0[j] != 0 ==> #[trigger] mark[j] == mark0[j],
            forall|e: int| 0 <= e < d ==> mark[(#[trigger] wants[i as int][e]) as int] == 2,
            fresh(mark@) < fresh(mark0),
        decreases wants[i as int].len() - d,
    {
        let next = wants[i][d];
        let ghost mark1 = mark@;
        proof {
            assert(path[path.len() - 1] == i);
            assert(wants_place(wants@, i as int, next as int));
        }
        if !visit(next, wants, mark, order, path) {
            return false;
        }
        proof {
            assert forall|e: int| 0 <= e < d + 1 implies mark[(
            #[trigger] wants[i as int][e]) as int] == 2 by {
                if e < d {
                    assert(mark1[wants[i as int][e] as int] == 2);
                }
            }
            assert forall|j: int| 0 <= j < wants.len() && mark0[j] != 0 implies #[trigger] mark[j]
                == mark0[j] by {
                assert(mark1[j] == mark0[j]);
            }
        }
        d = d + 1;
    }
    let ghost mark2 = mark@;
    let ghost order2 = order@;
    proof {
        lemma_fresh_update(mark@, i as int, 2);
    }
    path.pop();
    mark.set(i, 2);
    order.push(i);
    proof {
        assert(path@ == path0);
        assert(apart(path0));
        assert forall|p: int| 0 <= p < path.len() implies (#[trigger] path[p]) < wants.len()
            && mark[path[p] as int] == 1 by {
            assert(path0.push(i)[p] == path[p]);
            assert(mark2[path[p] as int] == 1);
            if path[p] == i {
                assert(mark0[path0[p] as int] == 1);
            }
        }
        assert forall|j: int| 0 <= j < wants.len() && (#[trigger] mark[j]) == 1 implies holds(
            path@,
            j,
        ) by {
            assert(mark2[j] == 1);
            assert(holds(path0.push(i), j));
            let m = choose|m: int| 0 <= m < path0.push(i).len() && #[trigger] path0.push(i)[m] == j;
            assert(path0[m] == j);
        }
        assert forall|p: int| 0 <= p < path.len() - 1 implies wants_place(
            wants@,
            (#[trigger] path[p]) as int,
            path[p + 1] as int,
        ) by {
            assert(path0.push(i)[p] == path[p]);
            assert(path0.push(i)[p + 1] == path[p + 1]);
        }
        assert forall|q: int| 0 <= q < order.len() implies (#[trigger] order[q]) < wants.len()
            && mark[order[q] as int] == 2 by {
            if q < order2.len() {
                assert(order[q] == order2[q]);
                assert(mark2[order2[q] as int] == 2);
            }
        }
        assert forall|j: int| 0 <= j < wants.len() && (#[trigger] mark[j]) == 2 implies holds(
            order@,
            j,
        ) by {
            if j == i {
                assert(order[order2.len() as int] == i);
            } else {
                assert(mark2[j] == 2);
                assert(holds(order2, j));
                let m = choose|m: int| 0 <= m < order2.len() && #[trigger] order2[m] == j;
                assert(order[m] == j);
            }
        }
        assert forall|q: int, e: int|
            0 <= q < order.len() && 0 <= e < wants[order[q] as int].len() implies placed_before(
            order@,
            (#[trigger] wants[order[q] as int][e]) as int,
            q,
        ) by {
            if q < order2.len() {
                assert(order[q] == order2[q]);
                assert(placed_before(order2, wants[order2[q] as int][e] as int, q));
                let m = choose|m: int|
                    0 <= m < q && m < order2.len() && (#[trigger] order2[m])
                        == wants[order2[q] as int][e] as int;
                assert(order[m] == order2[m]);
            } else {
                let w = wants[i as int][e] as int;
                assert(mark2[w] == 2);
                assert(holds(order2, w));
                let m = choose|m: int| 0 <= m < order2.len() && #[trigger] order2[m] == w;
                assert(order[m] == w);
            }
        }
        assert forall|j: int| 0 <= j < wants.len() && mark0[j] != 0 implies #[trigger] mark[j]
            == mark0[j] by {
            assert(mark2[j] == mark0[j]);
        }
        assert forall|q: int, r: int|
            0 <= q < order.len() && 0 <= r < order.len() && q != r implies (#[trigger] order[q])
            != (#[trigger] order[r]) by {
            if q < order2.len() {
                assert(order[q] == order2[q]);
                assert(mark2[order2[q] as int] == 2);
            }
            if r < order2.len() {
                assert(order[r] == order2[r]);
                assert(mark2[order2[r] as int] == 2);
            }
        }
    }
    true
}

/// Walks the whole graph in depth, from each place in turn. Hands back the
/// places, each after all it wants, or the way on which the walk came back
/// to itself.
pub fn depth_first(wants: &Vec<Vec<usize>>) -> (r: Result<Vec<usize>, Vec<usize>>)
    requires
        in_range(wants@),
    ensures
        match r {
            Ok(order) => {
                &&& order.len() == wants.len()
                &&& lists_all(order@, wants.len() as int)
                &&& forall|q: int, r: int|
                    0 <= q < order.len() && 0 <= r < order.len() && q != r ==> (
                    #[trigger] order[q]) != (#[trigger] order[r])
                &&& forall|q: int, d: int|
                    0 <= q < order.len() && 0 <= d < wants[order[q] as int].len()
                        ==> placed_before(
                        order@,
                        (#[trigger] wants[order[q] as int][d]) as int,
                        q,
                    )
            },
            Err(path) => closing(wants@, path@) && apart(path@),
        },
{
    let n = wants.len();
    let mut mark: Vec<u8> = Vec::new();
    let mut i: usize = 0;
    while i < n
        invariant
            i <= n,
            mark.len() == i,
            forall|j: int| 0 <= j < i ==> (#[trigger] mark[j]) == 0,
            fresh(mark@) == i,
        decreases n - i,
    {
        let ghost before = mark@;
        mark.push(0);
        assert(mark@.drop_last() == before);
        i = i + 1;
    }
    let mut order: Vec<usize> = Vec::new();
    let mut path: Vec<usize> = Vec::new();
    let mut i: usize = 0;
    while i < n
        invariant
            i <= n,
            n == wants.len(),
            in_range(wants@),
            walking(wants@, mark@, order@, path@),
            path.len() == 0,
            forall|j: int| 0 <= j < i ==> (#[trigger] mark[j]) == 2,
        decreases n - i,
    {
        let ghost before = mark@;
        if !visit(i, wants, &mut mark, &mut order, &mut path) {
            return Err(path);
        }
        proof {
            assert forall|j: int| 0 <= j < i + 1 implies (#[trigger] mark[j]) == 2 by {
                if j < i {
                    assert(before[j] == 2);
                }
            }
        }
        i = i + 1;
    }
    proof {
        lemma_fresh_none(mark@);
        assert forall|j: int| 0 <= j < n implies #[trigger] holds(order@, j) by {
            assert(mark[j] == 2);
        }
    }
    Ok(order)
}

} // verus!
