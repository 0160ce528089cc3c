//! The stem lineage graph: a set of directed `from -> to` edges between named
//! stems, kept sorted and free of cycles, and its DOT export.
use vstd::prelude::*;
use crate::ordered::{
    KeyOrder, keys, strictly_sorted, sorted_unique, views, contains_str, copy_strings,
};
use crate::text::{str_eq, trim, trimmed_range, chars_of, to_owned_string};

verus! {

pub const SCHEMA_VERSION: &'static str = "1.0";

/// One lineage edge.
#[derive(Debug, Clone)]
pub struct LineageEdge {
    pub from: String,
    pub to: String,
}

/// The lineage graph as stored on disk.
#[derive(Debug, Clone)]
pub struct LineageGraph {
    pub schema_version: String,
    pub nodes: Vec<String>,
    pub edges: Vec<LineageEdge>,
}

/// An edge as a pair of names.
pub type EdgeView = (Seq<char>, Seq<char>);

impl LineageEdge {
    pub open spec fn view(&self) -> EdgeView {
        (self.from@, self.to@)
    }

    /// A copy of this edge.
    pub fn duplicate(&self) -> (e: LineageEdge)
        ensures
            e.view() == self.view(),
    {
        LineageEdge { from: self.from.clone(), to: self.to.clone() }
    }
}

impl KeyOrder for LineageEdge {
    type K = EdgeView;

    open spec fn key(&self) -> EdgeView {
        (self.from@, self.to@)
    }

    open spec fn key_lt(a: EdgeView, b: EdgeView) -> bool {
        crate::text::seq_lt(a.0, b.0) || (a.0 == b.0 && crate::text::seq_lt(a.1, b.1))
    }

    proof fn lemma_key_lt_irreflexive(a: EdgeView) {
        crate::text::lemma_seq_lt_irreflexive(a.0);
        crate::text::lemma_seq_lt_irreflexive(a.1);
    }

    proof fn lemma_key_lt_transitive(a: EdgeView, b: EdgeView, c: EdgeView) {
        if crate::text::seq_lt(a.0, b.0) && crate::text::seq_lt(b.0, c.0) {
            crate::text::lemma_seq_lt_transitive(a.0, b.0, c.0);
        }
        if a.0 == b.0 && b.0 == c.0 && crate::text::seq_lt(a.1, b.1) && crate::text::seq_lt(b.1, c.1) {
            crate::text::lemma_seq_lt_transitive(a.1, b.1, c.1);
        }
    }

    proof fn lemma_key_lt_total(a: EdgeView, b: EdgeView) {
        crate::text::lemma_seq_lt_total(a.0, b.0);
        crate::text::lemma_seq_lt_total(a.1, b.1);
    }

    fn key_less(&self, other: &Self) -> (r: bool) {
        if crate::text::str_lt(self.from.as_str(), other.from.as_str()) {
            true
        } else if str_eq(self.from.as_str(), other.from.as_str()) {
            crate::text::str_lt(self.to.as_str(), other.to.as_str())
        } else {
            false
        }
    }
}

/// The set of edges of a list of edges.
pub open spec fn edge_set(edges: Seq<LineageEdge>) -> Set<EdgeView> {
    keys(edges).to_set()
}

/// `p` is a walk along `es`: one node at least, each step an edge.
pub open spec fn is_walk(es: Set<EdgeView>, p: Seq<Seq<char>>) -> bool {
    &&& p.len() >= 1
    &&& forall|i: int| 0 <= i < p.len() - 1 ==> #[trigger] es.contains((p[i], p[i + 1]))
}

/// `b` can be reached from `a` by following zero or more edges of `es`.
pub open spec fn reachable(es: Set<EdgeView>, a: Seq<char>, b: Seq<char>) -> bool {
    exists|p: Seq<Seq<char>>| is_walk(es, p) && p[0] == a && p.last() == b
}

/// `b` can be reached from `a` by following at least one edge of `es`.
pub open spec fn reachable_plus(es: Set<EdgeView>, a: Seq<char>, b: Seq<char>) -> bool {
    exists|p: Seq<Seq<char>>| is_walk(es, p) && p.len() >= 2 && p[0] == a && p.last() == b
}

/// No walk of one edge or more returns to where it started.
pub open spec fn acyclic(es: Set<EdgeView>) -> bool {
    forall|p: Seq<Seq<char>>| is_walk(es, p) && p.len() >= 2 ==> p[0] != p.last()
}

/// Every node of the graph: the listed nodes and both ends of every edge.
pub open spec fn node_set(g: LineageGraph) -> Set<Seq<char>> {
    views(g.nodes@).to_set().union(keys(g.edges@).map_values(|e: EdgeView| e.0).to_set()).union(
        keys(g.edges@).map_values(|e: EdgeView| e.1).to_set(),
    )
}

/// The graph is in normal form: nodes and edges are each strictly sorted
/// (hence without duplicates), and every edge end is a listed node.
pub open spec fn normalized(g: LineageGraph) -> bool {
    &&& strictly_sorted::<String>(views(g.nodes@))
    &&& strictly_sorted::<LineageEdge>(keys(g.edges@))
    &&& views(g.nodes@).to_set() == node_set(g)
}

proof fn lemma_walk_concat(es: Set<EdgeView>, p: Seq<Seq<char>>, q: Seq<Seq<char>>)
    requires
        is_walk(es, p),
        is_walk(es, q),
        p.last() == q[0],
    ensures
        is_walk(es, p + q.drop_first()),
        (p + q.drop_first())[0] == p[0],
        (p + q.drop_first()).last() == q.last(),
        (p + q.drop_first()).len() == p.len() + q.len() - 1,
{
    let r = p + q.drop_first();
    assert forall|i: int| 0 <= i < r.len() - 1 implies #[trigger] es.contains((r[i], r[i + 1])) by {
        if i < p.len() - 1 {
            assert(r[i] == p[i] && r[i + 1] == p[i + 1]);
        } else if i == p.len() - 1 {
            assert(r[i] == q[0] && r[i + 1] == q[1]);
        } else {
            let j = i - p.len() + 1;
            assert(r[i] == q[j] && r[i + 1] == q[j + 1]);
        }
    }
}

/// A walk in `es` plus one edge either stays in `es`, or it leaves `a` toward
/// `from` and continues from `to`.
proof fn lemma_walk_with_new_edge(
    es: Set<EdgeView>,
    from: Seq<char>,
    to: Seq<char>,
    p: Seq<Seq<char>>,
)
    requires
        is_walk(es.insert((from, to)), p),
        p.len() >= 2,
    ensures
        reachable_plus(es, p[0], p.last()) || (reachable(es, p[0], from) && reachable(es, to, p.last())),
    decreases p.len(),
{
    let ns = es.insert((from, to));
    let last_i = p.len() - 2;
    assert(ns.contains((p[last_i], p[last_i + 1])));
    let x = p[last_i];
    let y = p.last();
    if p.len() == 2 {
        if es.contains((x, y)) {
            assert(is_walk(es, p));
        } else {
            assert(x == from && y == to);
            assert(is_walk(es, seq![from]));
            assert(is_walk(es, seq![to]));
            assert(seq![from][0] == p[0] && seq![from].last() == from);
            assert(seq![to].last() == p.last());
        }
    } else {
        let q = p.drop_last();
        assert(is_walk(ns, q)) by {
            assert forall|i: int| 0 <= i < q.len() - 1 implies #[trigger] ns.contains((q[i], q[i + 1])) by {
                assert(q[i] == p[i] && q[i + 1] == p[i + 1]);
            }
        }
        lemma_walk_with_new_edge(es, from, to, q);
        assert(q.last() == x && q[0] == p[0]);
        if es.contains((x, y)) {
            let step = seq![x, y];
            assert(is_walk(es, step));
            if reachable_plus(es, q[0], x) {
                let w = choose|w: Seq<Seq<char>>| is_walk(es, w) && w.len() >= 2 && w[0] == q[0] && w.last() == x;
                lemma_walk_concat(es, w, step);
                let r = w + step.drop_first();
                assert(r.len() >= 2 && r[0] == p[0] && r.last() == y);
            } else {
                let w = choose|w: Seq<Seq<char>>| is_walk(es, w) && w[0] == to && w.last() == x;
                lemma_walk_concat(es, w, step);
                let r = w + step.drop_first();
                assert(r[0] == to && r.last() == y);
            }
        } else {
            assert(x == from && y == to);
            assert(is_walk(es, seq![to]));
            assert(seq![to][0] == to && seq![to].last() == y);
            if reachable_plus(es, q[0], x) {
                let w = choose|w: Seq<Seq<char>>| is_walk(es, w) && w.len() >= 2 && w[0] == q[0] && w.last() == x;
                assert(reachable(es, p[0], from));
            }
        }
    }
}

/// Adding an edge `from -> to` to an acyclic graph keeps it acyclic when
/// `from` cannot already be reached from `to` (and the edge is no self-loop).
pub proof fn lemma_add_edge_keeps_acyclic(es: Set<EdgeView>, from: Seq<char>, to: Seq<char>)
    requires
        acyclic(es),
        from != to,
        !reachable(es, to, from),
    ensures
        acyclic(es.insert((from, to))),
{
    let ns = es.insert((from, to));
    assert forall|p: Seq<Seq<char>>| is_walk(ns, p) && p.len() >= 2 implies p[0] != p.last() by {
        lemma_walk_with_new_edge(es, from, to, p);
        if p[0] == p.last() {
            if reachable_plus(es, p[0], p.last()) {
                let w = choose|w: Seq<Seq<char>>| is_walk(es, w) && w.len() >= 2 && w[0] == p[0] && w.last() == p.last();
                assert(w[0] != w.last());
            } else {
                let w1 = choose|w: Seq<Seq<char>>| is_walk(es, w) && w[0] == p[0] && w.last() == from;
                let w2 = choose|w: Seq<Seq<char>>| is_walk(es, w) && w[0] == to && w.last() == p.last();
                lemma_walk_concat(es, w2, w1);
                let r = w2 + w1.drop_first();
                assert(r[0] == to && r.last() == from);
            }
        }
    }
}

/// Every node reachable from `start` lies in a set that holds `start` and is
/// closed under following edges.
proof fn lemma_closed_set_holds_reachable(
    es: Set<EdgeView>,
    s: Set<Seq<char>>,
    start: Seq<char>,
    p: Seq<Seq<char>>,
)
    requires
        s.contains(start),
        forall|x: Seq<char>, y: Seq<char>| s.contains(x) && #[trigger] es.contains((x, y)) ==> s.contains(y),
        is_walk(es, p),
        p[0] == start,
    ensures
        s.contains(p.last()),
    decreases p.len(),
{
    if p.len() > 1 {
        let q = p.drop_last();
        assert(is_walk(es, q)) by {
            assert forall|i: int| 0 <= i < q.len() - 1 implies #[trigger] es.contains((q[i], q[i + 1])) by {
                assert(q[i] == p[i] && q[i + 1] == p[i + 1]);
            }
        }
        lemma_closed_set_holds_reachable(es, s, start, q);
        let last_i = p.len() - 2;
        assert(es.contains((p[last_i], p[last_i + 1])));
    }
}

/// The names `y` with an edge `node -> y` in `es`.
pub open spec fn successors(es: Set<EdgeView>, node: Seq<char>) -> Set<Seq<char>> {
    Set::new(|y: Seq<char>| es.contains((node, y)))
}

/// The targets of the edges leaving `node`, sorted and without repeats.
fn neighbors(edges: &Vec<LineageEdge>, node: &str) -> (out: Vec<String>)
    ensures
        strictly_sorted::<String>(views(out@)),
        views(out@).to_set() == successors(edge_set(edges@), node@),
{
    let mut tos: Vec<String> = Vec::new();
    let mut i: usize = 0;
    while i < edges.len()
        invariant
            i <= edges@.len(),
            views(tos@).to_set() == Set::new(
                |y: Seq<char>| exists|k: int| 0 <= k < i && edges@[k].from@ == node@ && edges@[k].to@ == y,
            ),
        decreases edges@.len() - i,
    {
        let ghost before = views(tos@);
        if str_eq(edges[i].from.as_str(), node) {
            let t = edges[i].to.clone();
            tos.push(t);
            assert(views(tos@) =~= before.push(t@));
        }
        proof {
            let target = Set::new(
                |y: Seq<char>| exists|k: int| 0 <= k < i + 1 && edges@[k].from@ == node@ && edges@[k].to@ == y,
            );
            assert forall|y: Seq<char>| views(tos@).to_set().contains(y) <==> target.contains(y) by {
                if views(tos@).to_set().contains(y) {
                    let m = choose|m: int| 0 <= m < views(tos@).len() && views(tos@)[m] == y;
                    if m < before.len() {
                        assert(before.to_set().contains(y));
                        let k = choose|k: int| 0 <= k < i && edges@[k].from@ == node@ && edges@[k].to@ == y;
                        assert(0 <= k < i + 1);
                    } else {
                        assert(edges@[i as int].to@ == y);
                    }
                }
                if target.contains(y) {
                    let k = choose|k: int| 0 <= k < i + 1 && edges@[k].from@ == node@ && edges@[k].to@ == y;
                    if k < i {
                        assert(before.to_set().contains(y));
                        let m = choose|m: int| 0 <= m < before.len() && before[m] == y;
                        assert(views(tos@)[m] == y);
                    } else {
                        assert(views(tos@)[before.len() as int] == y);
                    }
                }
            }
            assert(views(tos@).to_set() =~= target);
        }
        i += 1;
    }
    let out = sorted_unique(tos);
    proof {
        let es = edge_set(edges@);
        assert(keys::<String>(out@) =~= views(out@));
        assert(keys::<String>(tos@) =~= views(tos@));
        assert forall|y: Seq<char>| views(out@).to_set().contains(y) <==> successors(es, node@).contains(y) by {
            if successors(es, node@).contains(y) {
                assert(keys(edges@).to_set().contains((node@, y)));
                let k = choose|k: int| 0 <= k < keys(edges@).len() && keys(edges@)[k] == (node@, y);
                assert(edges@[k].from@ == node@ && edges@[k].to@ == y);
            }
            if views(tos@).to_set().contains(y) {
                let k = choose|k: int| 0 <= k < edges@.len() && edges@[k].from@ == node@ && edges@[k].to@ == y;
                assert(keys(edges@)[k] == (node@, y));
            }
        }
        assert(views(out@).to_set() =~= successors(es, node@));
    }
    out
}

/// What every name in a list of search names is: the start, or the target of some edge.
spec fn start_or_target(es: Set<EdgeView>, start: Seq<char>, x: Seq<char>) -> bool {
    x == start || exists|a: Seq<char>| es.contains((a, x))
}

/// A list of distinct names, each the start or an edge target, is no longer
/// than the edges plus one.
proof fn lemma_search_names_bound(edges: Seq<LineageEdge>, start: Seq<char>, s: Seq<Seq<char>>)
    requires
        s.no_duplicates(),
        forall|k: int| 0 <= k < s.len() ==> start_or_target(edge_set(edges), start, #[trigger] s[k]),
    ensures
        s.len() <= edges.len() + 1,
{
    let tos = keys(edges).map_values(|e: EdgeView| e.1);
    let t = tos.to_set().insert(start);
    tos.lemma_cardinality_of_set();
    s.unique_seq_to_set();
    assert forall|x: Seq<char>| s.to_set().contains(x) implies t.contains(x) by {
        let k = choose|k: int| 0 <= k < s.len() && s[k] == x;
        assert(start_or_target(edge_set(edges), start, s[k]));
        if x != start {
            let a = choose|a: Seq<char>| edge_set(edges).contains((a, x));
            let m = choose|m: int| 0 <= m < keys(edges).len() && keys(edges)[m] == (a, x);
            assert(tos[m] == x);
        }
    }
    vstd::seq_lib::seq_to_set_is_finite(tos);
    vstd::set_lib::lemma_len_subset(s.to_set(), t);
}

/// `p` is a walk from `a` to `b` along `es` with no more nodes than any other.
pub open spec fn is_shortest_walk(es: Set<EdgeView>, p: Seq<Seq<char>>, a: Seq<char>, b: Seq<char>) -> bool {
    &&& is_walk(es, p)
    &&& p[0] == a
    &&& p.last() == b
    &&& forall|q: Seq<Seq<char>>| #[trigger] is_walk(es, q) && q[0] == a && q.last() == b ==> p.len() <= q.len()
}

/// `p` comes before `q`, both of one length, in name order: at the first
/// place where they differ, `p`'s name is the smaller.
pub open spec fn walk_lt(p: Seq<Seq<char>>, q: Seq<Seq<char>>) -> bool {
    &&& p.len() == q.len()
    &&& exists|i: int| 0 <= i < p.len() && crate::text::seq_lt(p[i], q[i]) && #[trigger] p.take(i) == q.take(i)
}

/// `p` is `q` or comes before it.
pub open spec fn walk_le(p: Seq<Seq<char>>, q: Seq<Seq<char>>) -> bool {
    p == q || walk_lt(p, q)
}

/// `p` is a shortest walk from `a` to `b`, and the first in name order among
/// the shortest ones.
pub open spec fn is_first_shortest_walk(es: Set<EdgeView>, p: Seq<Seq<char>>, a: Seq<char>, b: Seq<char>) -> bool {
    &&& is_shortest_walk(es, p, a, b)
    &&& forall|q: Seq<Seq<char>>| #[trigger] is_walk(es, q) && q[0] == a && q.last() == b && q.len() == p.len() ==> walk_le(p, q)
}

proof fn lemma_walk_lt_transitive(p: Seq<Seq<char>>, q: Seq<Seq<char>>, r: Seq<Seq<char>>)
    requires
        walk_lt(p, q),
        walk_lt(q, r),
    ensures
        walk_lt(p, r),
{
    let i = choose|i: int| 0 <= i < p.len() && crate::text::seq_lt(p[i], q[i]) && #[trigger] p.take(i) == q.take(i);
    let j = choose|j: int| 0 <= j < q.len() && crate::text::seq_lt(q[j], r[j]) && #[trigger] q.take(j) == r.take(j);
    if i < j {
        assert(q[i] == q.take(j)[i]);
        assert(r[i] == r.take(j)[i]);
        assert(p.take(i) =~= r.take(i)) by {
            assert forall|k: int| 0 <= k < i implies p.take(i)[k] == r.take(i)[k] by {
                assert(p.take(i)[k] == q.take(i)[k]);
                assert(q.take(j)[k] == r.take(j)[k]);
            }
        }
    } else if j < i {
        assert(p[j] == p.take(i)[j]);
        assert(q[j] == q.take(i)[j]);
        assert(p.take(j) =~= r.take(j)) by {
            assert forall|k: int| 0 <= k < j implies p.take(j)[k] == r.take(j)[k] by {
                assert(p.take(i)[k] == q.take(i)[k]);
                assert(q.take(j)[k] == r.take(j)[k]);
            }
        }
    } else {
        crate::text::lemma_seq_lt_transitive(p[i], q[i], r[i]);
        assert(p.take(i) =~= r.take(i));
    }
}

proof fn lemma_walk_le_transitive(p: Seq<Seq<char>>, q: Seq<Seq<char>>, r: Seq<Seq<char>>)
    requires
        walk_le(p, q),
        walk_le(q, r),
    ensures
        walk_le(p, r),
{
    if p != q && q != r {
        lemma_walk_lt_transitive(p, q, r);
    }
}

/// Extending two walks of one length by one name each keeps their order.
proof fn lemma_walk_lt_push(p: Seq<Seq<char>>, q: Seq<Seq<char>>, x: Seq<char>, y: Seq<char>)
    requires
        walk_lt(p, q),
    ensures
        walk_lt(p.push(x), q.push(y)),
{
    let i = choose|i: int| 0 <= i < p.len() && crate::text::seq_lt(p[i], q[i]) && #[trigger] p.take(i) == q.take(i);
    assert(p.push(x).take(i) =~= p.take(i));
    assert(q.push(y).take(i) =~= q.take(i));
    assert(p.push(x)[i] == p[i]);
    assert(q.push(y)[i] == q[i]);
}

/// One walk extended by two names is ordered as the names are.
proof fn lemma_walk_lt_same_prefix(p: Seq<Seq<char>>, x: Seq<char>, y: Seq<char>)
    requires
        crate::text::seq_lt(x, y),
    ensures
        walk_lt(p.push(x), p.push(y)),
{
    let i = p.len() as int;
    assert(p.push(x).take(i) =~= p.push(y).take(i));
    assert(p.push(x)[i] == x);
}

/// The number of names on the `k`-th search path.
spec fn path_len(queue: Seq<Vec<String>>, k: int) -> nat {
    views(queue[k]@).len()
}

/// In a breadth-first search whose first `head` names are expanded, every
/// name on a walk from the start that is shorter than the path at `head` was
/// found, on a path no longer than the walk so far, before `head`.
proof fn lemma_bfs_prefix_found(
    es: Set<EdgeView>,
    sv: Seq<Seq<char>>,
    queue: Seq<Vec<String>>,
    head: int,
    q: Seq<Seq<char>>,
    i: int,
)
    requires
        0 <= head < sv.len(),
        sv.len() == queue.len(),
        q.len() >= 1,
        q[0] == sv[0],
        path_len(queue, 0) == 1,
        forall|a: int, b: int| 0 <= a <= b < queue.len() ==> path_len(queue, a) <= path_len(queue, b),
        forall|k: int, y: Seq<char>| 0 <= k < head && #[trigger] es.contains((sv[k], y)) ==> exists|k2: int|
            0 <= k2 < sv.len() && #[trigger] sv[k2] == y && path_len(queue, k2) <= path_len(queue, k) + 1,
        is_walk(es, q),
        0 <= i < q.len(),
        i + 1 < path_len(queue, head),
    ensures
        exists|k: int| 0 <= k < head && #[trigger] sv[k] == q[i] && path_len(queue, k) <= i + 1,
    decreases i,
{
    if i == 0 {
        if head == 0 {
            assert(false);
        }
        assert(sv[0] == q[0]);
    } else {
        lemma_bfs_prefix_found(es, sv, queue, head, q, i - 1);
        let k = choose|k: int| 0 <= k < head && #[trigger] sv[k] == q[i - 1] && path_len(queue, k) <= i;
        assert(es.contains((q[i - 1], q[(i - 1) + 1])));
        assert(es.contains((sv[k], q[i])));
        let k2 = choose|k2: int| 0 <= k2 < sv.len() && #[trigger] sv[k2] == q[i] && path_len(queue, k2) <= path_len(queue, k) + 1;
        if k2 >= head {
            assert(path_len(queue, head) <= path_len(queue, k2));
        }
        assert(sv[k2] == q[i]);
    }
}

/// The `k`-th search path.
spec fn qv(queue: Seq<Vec<String>>, k: int) -> Seq<Seq<char>> {
    views(queue[k]@)
}

/// The search path at `a` comes before the one at `b`: it is shorter, or as
/// long and first in name order.
spec fn qbefore(p: Seq<Seq<char>>, q: Seq<Seq<char>>) -> bool {
    p.len() < q.len() || walk_lt(p, q)
}

/// Every search path is the first in name order among the walks of its
/// length from the start to its last name.
spec fn paths_least(es: Set<EdgeView>, sv: Seq<Seq<char>>, queue: Seq<Vec<String>>) -> bool {
    forall|k: int, w: Seq<Seq<char>>|
        0 <= k < queue.len() && #[trigger] is_walk(es, w) && w[0] == sv[0] && w.last() == #[trigger] sv[k]
            && w.len() == qv(queue, k).len() ==> walk_le(qv(queue, k), w)
}

/// The path that extends the search path at `head` by a new name `y` is the
/// first in name order among the walks of its length to `y`.
proof fn lemma_new_path_least(
    es: Set<EdgeView>,
    sv: Seq<Seq<char>>,
    queue: Seq<Vec<String>>,
    head: int,
    y: Seq<char>,
    w: Seq<Seq<char>>,
)
    requires
        0 <= head < sv.len(),
        sv.len() == queue.len(),
        sv.no_duplicates(),
        path_len(queue, 0) == 1,
        forall|a: int, b: int| 0 <= a <= b < queue.len() ==> path_len(queue, a) <= path_len(queue, b),
        forall|a: int, b: int| 0 <= a < b < queue.len() ==> qbefore(qv(queue, a), qv(queue, b)),
        forall|k: int, z: Seq<char>| 0 <= k < head && #[trigger] es.contains((sv[k], z)) ==> exists|k2: int|
            0 <= k2 < sv.len() && #[trigger] sv[k2] == z && path_len(queue, k2) <= path_len(queue, k) + 1,
        forall|k: int| 0 <= k < queue.len() ==> {
            &&& is_walk(es, #[trigger] qv(queue, k))
            &&& qv(queue, k)[0] == sv[0]
            &&& qv(queue, k).last() == sv[k]
        },
        paths_least(es, sv, queue),
        !sv.contains(y),
        is_walk(es, w),
        w[0] == sv[0],
        w.last() == y,
        w.len() == qv(queue, head).len() + 1,
    ensures
        walk_le(qv(queue, head).push(y), w),
{
    let lh = qv(queue, head).len();
    let qh = qv(queue, head);
    assert(is_walk(es, qh));
    if lh == 1 {
        assert(qh[0] == sv[0] && qh.last() == sv[head]);
        if head != 0 {
            assert(sv[head] == sv[0]);
        }
        assert(qh =~= seq![sv[0]]);
        assert(w.len() == 2);
        assert(qh.push(y) =~= w);
    } else {
        let w1 = w.drop_last();
        let z = w1.last();
        assert(is_walk(es, w1)) by {
            assert forall|i: int| 0 <= i < w1.len() - 1 implies #[trigger] es.contains((w1[i], w1[i + 1])) by {
                assert(es.contains((w[i], w[i + 1])));
            }
        }
        assert(w1[0] == sv[0]);
        // the name before `z` on the walk was found before `head`
        lemma_bfs_prefix_found(es, sv, queue, head, w1, lh - 2);
        let k1 = choose|k1: int| 0 <= k1 < head && #[trigger] sv[k1] == w1[lh - 2] && path_len(queue, k1) <= lh - 1;
        assert(es.contains((w[lh - 2], w[(lh - 2) + 1])));
        assert(es.contains((sv[k1], z)));
        let k2 = choose|k2: int| 0 <= k2 < sv.len() && #[trigger] sv[k2] == z && path_len(queue, k2) <= path_len(queue, k1) + 1;
        // `z` was not expanded yet, else `y` would have been found
        assert(es.contains((w[lh - 1], w[(lh - 1) + 1])));
        assert(es.contains((sv[k2], y)));
        if k2 < head {
            let k3 = choose|k3: int| 0 <= k3 < sv.len() && #[trigger] sv[k3] == y && path_len(queue, k3) <= path_len(queue, k2) + 1;
            assert(sv.contains(y));
        }
        assert(path_len(queue, head) <= path_len(queue, k2));
        assert(qv(queue, k2).len() == lh);
        assert(walk_le(qv(queue, k2), w1));
        if k2 != head {
            assert(qbefore(qv(queue, head), qv(queue, k2)));
            lemma_walk_le_transitive(qh, qv(queue, k2), w1);
        }
        assert(walk_le(qh, w1));
        if qh != w1 {
            lemma_walk_lt_push(qh, w1, y, y);
        }
        assert(w1.push(y) =~= w);
    }
}

/// A path of names from `start` to `goal` along `edges`, found breadth-first
/// (neighbors visited in name order), or `None` when `goal` cannot be reached.
/// The path found is a shortest one and, among the shortest, the first in
/// name order.
pub fn path_between(edges: &Vec<LineageEdge>, start: &str, goal: &str) -> (r: Option<Vec<String>>)
    ensures
        match r {
            Some(p) => {
                &&& is_walk(edge_set(edges@), views(p@))
                &&& views(p@)[0] == start@
                &&& views(p@).last() == goal@
                &&& is_shortest_walk(edge_set(edges@), views(p@), start@, goal@)
                &&& is_first_shortest_walk(edge_set(edges@), views(p@), start@, goal@)
            },
            None => !reachable(edge_set(edges@), start@, goal@),
        },
{
    let ghost es = edge_set(edges@);
    let mut queue: Vec<Vec<String>> = Vec::new();
    let mut first: Vec<String> = Vec::new();
    first.push(to_owned_string(start));
    queue.push(first);
    let mut seen: Vec<String> = Vec::new();
    seen.push(to_owned_string(start));
    let mut head: usize = 0;
    let ghost mut parent: Seq<int> = seq![0int];
    proof {
        assert(views(queue@[0]@) =~= seq![start@]);
        assert(views(seen@) =~= seq![start@]);
        assert forall|k: int, w: Seq<Seq<char>>|
            0 <= k < queue@.len() && #[trigger] is_walk(es, w) && w[0] == views(seen@)[0] && w.last() == #[trigger] views(seen@)[k]
                && w.len() == qv(queue@, k).len() implies walk_le(qv(queue@, k), w) by {
            assert(w =~= qv(queue@, k));
        }
    }
    while head < queue.len()
        invariant
            queue@.len() == seen@.len(),
            head <= queue@.len(),
            seen@.len() >= 1,
            views(seen@)[0] == start@,
            views(seen@).no_duplicates(),
            seen@.len() <= edges@.len() + 1,
            forall|k: int| 0 <= k < seen@.len() ==> start_or_target(es, start@, #[trigger] views(seen@)[k]),
            forall|k: int| 0 <= k < queue@.len() ==> {
                &&& is_walk(es, #[trigger] views(queue@[k]@))
                &&& views(queue@[k]@)[0] == start@
                &&& views(queue@[k]@).last() == views(seen@)[k]
            },
            forall|k: int, y: Seq<char>| 0 <= k < head && #[trigger] es.contains((views(seen@)[k], y)) ==> views(seen@).contains(y),
            forall|k: int| 0 <= k < head ==> #[trigger] views(seen@)[k] != goal@,
            es == edge_set(edges@),
            path_len(queue@, 0) == 1,
            forall|a: int, b: int| 0 <= a <= b < queue@.len() ==> path_len(queue@, a) <= path_len(queue@, b),
            head < queue@.len() ==> forall|k: int| 0 <= k < queue@.len() ==> path_len(queue@, k) <= path_len(queue@, head as int) + 1,
            forall|k: int, y: Seq<char>| 0 <= k < head && #[trigger] es.contains((views(seen@)[k], y)) ==> exists|k2: int|
                0 <= k2 < seen@.len() && #[trigger] views(seen@)[k2] == y && path_len(queue@, k2) <= path_len(queue@, k) + 1,
            forall|a: int, b: int| 0 <= a < b < queue@.len() ==> qbefore(qv(queue@, a), qv(queue@, b)),
            paths_least(es, views(seen@), queue@),
            parent.len() == queue@.len(),
            forall|k: int| 1 <= k < queue@.len() ==> 0 <= #[trigger] parent[k] < head && qv(queue@, k) == qv(queue@, parent[k]).push(views(seen@)[k]),
        decreases 2 * (edges@.len() + 1) - seen@.len() - head,
    {
        let path = copy_strings(&queue[head]);
        let plen = path.len();
        assert(views(path@).len() == plen);
        let current = path[plen - 1].clone();
        assert(current@ == views(path@)[plen - 1]);
        if str_eq(current.as_str(), goal) {
            proof {
                let sv = views(seen@);
                assert(views(path@) == views(queue@[head as int]@));
                assert forall|q: Seq<Seq<char>>| #[trigger] is_walk(es, q) && q[0] == start@ && q.last() == goal@ implies views(
                    path@,
                ).len() <= q.len() by {
                    if q.len() < path_len(queue@, head as int) {
                        lemma_bfs_prefix_found(es, sv, queue@, head as int, q, q.len() - 1);
                        let k = choose|k: int| 0 <= k < head && #[trigger] sv[k] == q[q.len() - 1] && path_len(queue@, k) <= q.len();
                        assert(sv[k] != goal@);
                    }
                }
                assert(sv[head as int] == goal@);
            }
            return Some(path);
        }
        let nbrs = neighbors(edges, current.as_str());
        let ghost seen_before = views(seen@);
        let ghost queue_before = queue@;
        let ghost lh = path_len(queue@, head as int);
        proof {
            let sv = views(seen@);
            assert(views(path@) == qv(queue@, head as int));
            if nbrs@.len() > 0 {
                assert forall|k: int| 0 <= k < queue@.len() && #[trigger] qv(queue@, k).len() == lh + 1 implies walk_lt(
                    qv(queue@, k),
                    views(path@).push(views(nbrs@)[0]),
                ) by {
                    if k == 0 {
                        assert(path_len(queue@, 0) == 1);
                    } else {
                        let pk = parent[k];
                        assert(qv(queue@, k) == qv(queue@, pk).push(sv[k]));
                        assert(qv(queue@, pk).len() == lh);
                        assert(qbefore(qv(queue@, pk), qv(queue@, head as int)));
                        lemma_walk_lt_push(qv(queue@, pk), qv(queue@, head as int), sv[k], views(nbrs@)[0]);
                    }
                }
            }
        }
        let mut j: usize = 0;
        while j < nbrs.len()
            invariant
                j <= nbrs@.len(),
                queue@.len() == seen@.len(),
                head < queue@.len(),
                seen@.len() >= seen_before.len(),
                views(seen@).take(seen_before.len() as int) == seen_before,
                views(seen@).no_duplicates(),
                seen@.len() <= edges@.len() + 1,
                forall|k: int| 0 <= k < seen@.len() ==> start_or_target(es, start@, #[trigger] views(seen@)[k]),
                forall|k: int| 0 <= k < queue@.len() ==> {
                    &&& is_walk(es, #[trigger] views(queue@[k]@))
                    &&& views(queue@[k]@)[0] == start@
                    &&& views(queue@[k]@).last() == views(seen@)[k]
                },
                forall|jj: int| 0 <= jj < j ==> views(seen@).contains(#[trigger] views(nbrs@)[jj]),
                is_walk(es, views(path@)),
                views(path@)[0] == start@,
                views(path@).last() == current@,
                views(nbrs@).to_set() == successors(es, current@),
                es == edge_set(edges@),
                queue@.len() >= queue_before.len(),
                forall|k: int| 0 <= k < queue_before.len() ==> #[trigger] queue@[k] == queue_before[k],
                lh == path_len(queue@, head as int),
                views(path@).len() == lh,
                forall|a: int, b: int| 0 <= a <= b < queue@.len() ==> path_len(queue@, a) <= path_len(queue@, b),
                forall|k: int| 0 <= k < queue@.len() ==> path_len(queue@, k) <= lh + 1,
                forall|jj: int| 0 <= jj < j ==> exists|k2: int|
                    0 <= k2 < seen@.len() && #[trigger] views(seen@)[k2] == #[trigger] views(nbrs@)[jj] && path_len(queue@, k2) <= lh + 1,
                forall|a: int, b: int| 0 <= a < b < queue@.len() ==> qbefore(qv(queue@, a), qv(queue@, b)),
                paths_least(es, views(seen@), queue@),
                parent.len() == queue@.len(),
                forall|k: int| 1 <= k < queue@.len() ==> 0 <= #[trigger] parent[k] <= head && qv(queue@, k) == qv(queue@, parent[k]).push(views(seen@)[k]),
                j < nbrs@.len() ==> forall|k: int| 0 <= k < queue@.len() && #[trigger] qv(queue@, k).len() == lh + 1 ==> walk_lt(
                    qv(queue@, k),
                    views(path@).push(views(nbrs@)[j as int]),
                ),
                path_len(queue@, 0) == 1,
                forall|k: int, z: Seq<char>| 0 <= k < head && #[trigger] es.contains((views(seen@)[k], z)) ==> exists|k2: int|
                    0 <= k2 < seen@.len() && #[trigger] views(seen@)[k2] == z && path_len(queue@, k2) <= path_len(queue@, k) + 1,
                views(path@) == qv(queue@, head as int),
                strictly_sorted::<String>(views(nbrs@)),
                views(seen@)[0] == start@,
            decreases nbrs@.len() - j,
        {
            let n = &nbrs[j];
            let ghost s_before = views(seen@);
            let ghost q_start = queue@;
            if !contains_str(&seen, n.as_str()) {
                let ghost q_len = queue@.len();
                let ghost q_old = queue@;
                seen.push(n.clone());
                let mut np = copy_strings(&path);
                np.push(n.clone());
                queue.push(np);
                proof {
                    let nv = n@;
                    assert(views(seen@) =~= s_before.push(nv));
                    assert(views(nbrs@)[j as int] == nv);
                    assert(views(nbrs@).to_set().contains(nv));
                    assert(es.contains((current@, nv)));
                    assert(start_or_target(es, start@, nv));
                    assert forall|a: int, b: int| 0 <= a < b < views(seen@).len() implies views(seen@)[a] != views(seen@)[b] by {
                        if b == s_before.len() {
                            assert(s_before.contains(s_before[a]));
                        }
                    }
                    let pv = views(np@);
                    assert(pv =~= views(path@).push(nv));
                    assert(is_walk(es, pv)) by {
                        assert forall|i: int| 0 <= i < pv.len() - 1 implies #[trigger] es.contains((pv[i], pv[i + 1])) by {
                            if i < pv.len() - 2 {
                                assert(pv[i] == views(path@)[i] && pv[i + 1] == views(path@)[i + 1]);
                            } else {
                                assert(pv[i] == current@);
                            }
                        }
                    }
                    assert(views(queue@[q_len as int]@) == pv);
                    assert(path_len(queue@, q_len as int) == lh + 1);
                    assert forall|k: int| 0 <= k < q_len implies #[trigger] queue@[k] == q_old[k] by {}
                    assert forall|k: int| 0 <= k < q_len implies path_len(queue@, k) == path_len(q_old, k) by {
                        assert(queue@[k] == q_old[k]);
                    }
                    assert forall|a: int, b: int| 0 <= a <= b < queue@.len() implies path_len(queue@, a) <= path_len(queue@, b) by {
                        if b < q_len {
                            assert(path_len(queue@, a) == path_len(q_old, a));
                            assert(path_len(queue@, b) == path_len(q_old, b));
                        } else if a < q_len {
                            assert(path_len(queue@, a) == path_len(q_old, a));
                        }
                    }
                    assert forall|k: int| 0 <= k < queue@.len() implies path_len(queue@, k) <= lh + 1 by {
                        if k < q_len {
                            assert(path_len(queue@, k) == path_len(q_old, k));
                        }
                    }
                    lemma_search_names_bound(edges@, start@, views(seen@));
                    assert(views(seen@).take(seen_before.len() as int) =~= seen_before);
                    parent = parent.push(head as int);
                    let sv = views(seen@);
                    assert(qv(queue@, q_len as int) == qv(q_old, head as int).push(nv));
                    assert forall|k: int| 1 <= k < queue@.len() implies 0 <= #[trigger] parent[k] <= head && qv(queue@, k) == qv(
                        queue@,
                        parent[k],
                    ).push(sv[k]) by {
                        if k < q_len {
                            assert(qv(queue@, k) == qv(q_old, k));
                            assert(qv(queue@, parent[k]) == qv(q_old, parent[k]));
                            assert(sv[k] == s_before[k]);
                        } else {
                            assert(qv(queue@, head as int) == qv(q_old, head as int));
                        }
                    }
                    assert forall|a: int, b: int| 0 <= a < b < queue@.len() implies qbefore(qv(queue@, a), qv(queue@, b)) by {
                        assert(qv(queue@, a) == qv(q_old, a));
                        if b < q_len {
                            assert(qv(queue@, b) == qv(q_old, b));
                        } else {
                            if qv(q_old, a).len() == lh + 1 {
                                assert(walk_lt(qv(q_old, a), views(path@).push(views(nbrs@)[j as int])));
                            } else {
                                assert(path_len(q_old, a) <= lh + 1);
                            }
                        }
                    }
                    assert(paths_least(es, sv, queue@)) by {
                        assert forall|k: int, w: Seq<Seq<char>>|
                            0 <= k < queue@.len() && #[trigger] is_walk(es, w) && w[0] == sv[0] && w.last() == #[trigger] sv[k]
                                && w.len() == qv(queue@, k).len() implies walk_le(qv(queue@, k), w) by {
                            if k < q_len {
                                assert(qv(queue@, k) == qv(q_old, k));
                                assert(sv[k] == s_before[k]);
                                assert(s_before[0] == sv[0]);
                            } else {
                                assert(!s_before.contains(nv));
                                assert(s_before[0] == sv[0]);
                                lemma_new_path_least(es, s_before, q_old, head as int, nv, w);
                            }
                        }
                    }
                }
            } else {
                assert(views(nbrs@)[j as int] == n@);
            }
            proof {
                let sv = views(seen@);
                assert(sv.len() >= s_before.len());
                assert forall|m: int| 0 <= m < s_before.len() implies sv[m] == s_before[m] by {
                    assert(sv.take(seen_before.len() as int) == seen_before);
                    if sv.len() > s_before.len() {
                        assert(sv =~= s_before.push(sv.last()));
                    } else {
                        assert(sv =~= s_before);
                    }
                }
                if j + 1 < nbrs@.len() {
                    let nx = views(path@).push(views(nbrs@)[j as int]);
                    let ny = views(path@).push(views(nbrs@)[j + 1]);
                    assert(crate::text::seq_lt(views(nbrs@)[j as int], views(nbrs@)[j + 1]));
                    lemma_walk_lt_same_prefix(views(path@), views(nbrs@)[j as int], views(nbrs@)[j + 1]);
                    assert forall|k: int| 0 <= k < queue@.len() && #[trigger] qv(queue@, k).len() == lh + 1 implies walk_lt(
                        qv(queue@, k),
                        ny,
                    ) by {
                        if k < q_start.len() {
                            assert(qv(queue@, k) == qv(q_start, k));
                            lemma_walk_lt_transitive(qv(queue@, k), nx, ny);
                        } else {
                            assert(qv(queue@, k) == nx);
                        }
                    }
                }
                assert forall|jj: int| 0 <= jj < j + 1 implies sv.contains(#[trigger] views(nbrs@)[jj]) by {
                    if jj < j {
                        assert(s_before.contains(views(nbrs@)[jj]));
                        let m = choose|m: int| 0 <= m < s_before.len() && s_before[m] == views(nbrs@)[jj];
                        assert(sv[m] == views(nbrs@)[jj]);
                    } else if sv.len() > s_before.len() {
                        assert(sv[s_before.len() as int] == n@);
                    } else {
                        assert(s_before.contains(n@));
                        let m = choose|m: int| 0 <= m < s_before.len() && s_before[m] == n@;
                        assert(sv[m] == n@);
                    }
                }
            }
            j += 1;
        }
        proof {
            let sv = views(seen@);
            assert(current@ == seen_before[head as int]);
            assert(sv[head as int] == seen_before[head as int]);
            assert forall|k: int, y: Seq<char>| 0 <= k < head + 1 && #[trigger] es.contains((sv[k], y)) implies sv.contains(y) by {
                if k < head {
                    assert(sv[k] == seen_before[k]);
                    assert(seen_before.contains(y));
                    let m = choose|m: int| 0 <= m < seen_before.len() && seen_before[m] == y;
                    assert(sv[m] == y);
                } else {
                    assert(successors(es, current@).contains(y));
                    assert(views(nbrs@).to_set().contains(y));
                    let jj = choose|jj: int| 0 <= jj < views(nbrs@).len() && views(nbrs@)[jj] == y;
                    assert(sv.contains(views(nbrs@)[jj]));
                }
            }
            assert forall|k: int| 0 <= k < head + 1 implies #[trigger] sv[k] != goal@ by {
                if k < head {
                    assert(sv[k] == seen_before[k]);
                }
            }
        }
        head += 1;
    }
    proof {
        let sv = views(seen@);
        let s = sv.to_set();
        assert(s.contains(start@));
        assert forall|x: Seq<char>, y: Seq<char>| s.contains(x) && #[trigger] es.contains((x, y)) implies s.contains(y) by {
            let k = choose|k: int| 0 <= k < sv.len() && sv[k] == x;
            assert(es.contains((sv[k], y)));
        }
        if reachable(es, start@, goal@) {
            let p = choose|p: Seq<Seq<char>>| is_walk(es, p) && p[0] == start@ && p.last() == goal@;
            lemma_closed_set_holds_reachable(es, s, start@, p);
            let k = choose|k: int| 0 <= k < sv.len() && sv[k] == goal@;
            assert(sv[k] != goal@);
        }
    }
    None
}

/// The graph as plain values: schema version, node names, edges.
pub open spec fn graph_view(g: LineageGraph) -> (Seq<char>, Seq<Seq<char>>, Seq<EdgeView>) {
    (g.schema_version@, views(g.nodes@), keys(g.edges@))
}

/// A copy of a list of edges.
fn copy_edges(edges: &Vec<LineageEdge>) -> (out: Vec<LineageEdge>)
    ensures
        keys(out@) == keys(edges@),
{
    let mut out: Vec<LineageEdge> = Vec::new();
    let mut i: usize = 0;
    while i < edges.len()
        invariant
            i <= edges@.len(),
            keys(out@) == keys(edges@).take(i as int),
        decreases edges@.len() - i,
    {
        let e = edges[i].duplicate();
        let ghost before = out@;
        out.push(e);
        assert(keys(out@) =~= keys(before).push(e.key()));
        assert(keys(out@) =~= keys(edges@).take(i + 1));
        i += 1;
    }
    assert(keys(edges@).take(edges@.len() as int) =~= keys(edges@));
    out
}

/// A copy of a graph.
pub fn copy_graph(g: &LineageGraph) -> (out: LineageGraph)
    ensures
        graph_view(out) == graph_view(*g),
{
    LineageGraph {
        schema_version: g.schema_version.clone(),
        nodes: copy_strings(&g.nodes),
        edges: copy_edges(&g.edges),
    }
}

/// Brings a graph into normal form: every listed node and edge end once, in
/// name order; every edge once, ordered by source then target.
pub fn normalize_graph(g: LineageGraph) -> (out: LineageGraph)
    ensures
        normalized(out),
        out.schema_version@ == g.schema_version@,
        views(out.nodes@).to_set() == node_set(g),
        edge_set(out.edges@) == edge_set(g.edges@),
{
    let LineageGraph { schema_version, nodes, edges } = g;
    let ghost nodes0 = views(nodes@);
    let ghost ek = keys(edges@);
    let mut all = nodes;
    let mut i: usize = 0;
    while i < edges.len()
        invariant
            i <= edges@.len(),
            ek == keys(edges@),
            views(all@).to_set() == nodes0.to_set().union(ek.take(i as int).map_values(|e: EdgeView| e.0).to_set()).union(
                ek.take(i as int).map_values(|e: EdgeView| e.1).to_set(),
            ),
        decreases edges@.len() - i,
    {
        let ghost before = views(all@);
        let f = edges[i].from.clone();
        let t = edges[i].to.clone();
        all.push(f);
        all.push(t);
        proof {
            let e = ek[i as int];
            assert(e == (f@, t@));
            assert(views(all@) =~= before.push(f@).push(t@));
            let froms_old = ek.take(i as int).map_values(|e: EdgeView| e.0);
            let tos_old = ek.take(i as int).map_values(|e: EdgeView| e.1);
            let froms_new = ek.take(i + 1).map_values(|e: EdgeView| e.0);
            let tos_new = ek.take(i + 1).map_values(|e: EdgeView| e.1);
            assert(froms_new =~= froms_old.push(f@));
            assert(tos_new =~= tos_old.push(t@));
            assert(froms_new.to_set() =~= froms_old.to_set().insert(f@)) by {
                assert forall|x| froms_new.to_set().contains(x) <==> froms_old.to_set().insert(f@).contains(x) by {
                    if froms_new.to_set().contains(x) {
                        let m = choose|m: int| 0 <= m < froms_new.len() && froms_new[m] == x;
                        if m < froms_old.len() { assert(froms_old[m] == x); }
                    }
                    if froms_old.to_set().contains(x) {
                        let m = choose|m: int| 0 <= m < froms_old.len() && froms_old[m] == x;
                        assert(froms_new[m] == x);
                    }
                    if x == f@ { assert(froms_new[froms_old.len() as int] == x); }
                }
            }
            assert(tos_new.to_set() =~= tos_old.to_set().insert(t@)) by {
                assert forall|x| tos_new.to_set().contains(x) <==> tos_old.to_set().insert(t@).contains(x) by {
                    if tos_new.to_set().contains(x) {
                        let m = choose|m: int| 0 <= m < tos_new.len() && tos_new[m] == x;
                        if m < tos_old.len() { assert(tos_old[m] == x); }
                    }
                    if tos_old.to_set().contains(x) {
                        let m = choose|m: int| 0 <= m < tos_old.len() && tos_old[m] == x;
                        assert(tos_new[m] == x);
                    }
                    if x == t@ { assert(tos_new[tos_old.len() as int] == x); }
                }
            }
            assert(views(all@).to_set() =~= before.to_set().insert(f@).insert(t@)) by {
                assert forall|x| views(all@).to_set().contains(x) <==> before.to_set().insert(f@).insert(t@).contains(x) by {
                    let va = views(all@);
                    if va.to_set().contains(x) {
                        let m = choose|m: int| 0 <= m < va.len() && va[m] == x;
                        if m < before.len() { assert(before[m] == x); }
                    }
                    if before.to_set().contains(x) {
                        let m = choose|m: int| 0 <= m < before.len() && before[m] == x;
                        assert(va[m] == x);
                    }
                    if x == f@ { assert(va[before.len() as int] == x); }
                    if x == t@ { assert(va[before.len() as int + 1] == x); }
                }
            }
        }
        i += 1;
    }
    assert(ek.take(edges@.len() as int) =~= ek);
    let sorted_nodes = sorted_unique(all);
    let sorted_edges = sorted_unique(edges);
    let out = LineageGraph { schema_version, nodes: sorted_nodes, edges: sorted_edges };
    proof {
        assert(keys::<String>(out.nodes@) =~= views(out.nodes@));
        assert(keys::<String>(all@) =~= views(all@));
        let g2 = out;
        assert(keys(g2.edges@).to_set() == ek.to_set());
        let fo = keys(g2.edges@).map_values(|e: EdgeView| e.0).to_set();
        let fi = ek.map_values(|e: EdgeView| e.0).to_set();
        let to2 = keys(g2.edges@).map_values(|e: EdgeView| e.1).to_set();
        let ti = ek.map_values(|e: EdgeView| e.1).to_set();
        assert(fo =~= fi) by {
            assert forall|x| fo.contains(x) <==> fi.contains(x) by {
                if fo.contains(x) {
                    let m = choose|m: int| 0 <= m < keys(g2.edges@).len() && keys(g2.edges@)[m].0 == x;
                    assert(keys(g2.edges@).to_set().contains(keys(g2.edges@)[m]));
                    let n = choose|n: int| 0 <= n < ek.len() && ek[n] == keys(g2.edges@)[m];
                    assert(ek.map_values(|e: EdgeView| e.0)[n] == x);
                }
                if fi.contains(x) {
                    let n = choose|n: int| 0 <= n < ek.len() && ek[n].0 == x;
                    assert(ek.to_set().contains(ek[n]));
                    let m = choose|m: int| 0 <= m < keys(g2.edges@).len() && keys(g2.edges@)[m] == ek[n];
                    assert(keys(g2.edges@).map_values(|e: EdgeView| e.0)[m] == x);
                }
            }
        }
        assert(to2 =~= ti) by {
            assert forall|x| to2.contains(x) <==> ti.contains(x) by {
                if to2.contains(x) {
                    let m = choose|m: int| 0 <= m < keys(g2.edges@).len() && keys(g2.edges@)[m].1 == x;
                    assert(keys(g2.edges@).to_set().contains(keys(g2.edges@)[m]));
                    let n = choose|n: int| 0 <= n < ek.len() && ek[n] == keys(g2.edges@)[m];
                    assert(ek.map_values(|e: EdgeView| e.1)[n] == x);
                }
                if ti.contains(x) {
                    let n = choose|n: int| 0 <= n < ek.len() && ek[n].1 == x;
                    assert(ek.to_set().contains(ek[n]));
                    let m = choose|m: int| 0 <= m < keys(g2.edges@).len() && keys(g2.edges@)[m] == ek[n];
                    assert(keys(g2.edges@).map_values(|e: EdgeView| e.1)[m] == x);
                }
            }
        }
        assert(views(out.nodes@).to_set() =~= node_set(out)) by {
            assert forall|x| views(out.nodes@).to_set().contains(x) <==> node_set(out).contains(x) by {}
        }
    }
    out
}

/// A graph read from storage: an absent file yields the empty graph; a stored
/// one has its schema version reset and is brought into normal form.
pub fn loaded_graph(stored: Option<LineageGraph>) -> (out: LineageGraph)
    ensures
        out.schema_version@ == SCHEMA_VERSION@,
        normalized(out),
        match stored {
            None => out.nodes@.len() == 0 && out.edges@.len() == 0,
            Some(g) => views(out.nodes@).to_set() == node_set(g) && edge_set(out.edges@) == edge_set(g.edges@),
        },
{
    match stored {
        None => {
            let out = LineageGraph {
                schema_version: to_owned_string(SCHEMA_VERSION),
                nodes: Vec::new(),
                edges: Vec::new(),
            };
            proof {
                assert(views(out.nodes@).to_set() =~= node_set(out));
            }
            out
        },
        Some(g) => {
            let LineageGraph { schema_version: _, nodes, edges } = g;
            let reset = LineageGraph { schema_version: to_owned_string(SCHEMA_VERSION), nodes, edges };
            normalize_graph(reset)
        },
    }
}

/// Why a link request was refused.
#[derive(Debug)]
pub enum GraphError {
    /// `from` is empty or only whitespace.
    EmptyFrom,
    /// `to` is empty or only whitespace.
    EmptyTo,
    /// `from` and `to` name the same stem.
    SelfLink { from: String, to: String },
    /// The edge would close a cycle; `cycle` runs from `from` back to `from`.
    Cycle { cycle: Vec<String> },
}

/// The names joined with `" -> "`.
pub open spec fn arrow_joined(s: Seq<Seq<char>>) -> Seq<char>
    decreases s.len(),
{
    if s.len() == 0 {
        Seq::empty()
    } else if s.len() == 1 {
        s[0]
    } else {
        arrow_joined(s.drop_last()) + " -> "@ + s.last()
    }
}

/// Joins names with `" -> "`.
pub fn join_arrows(names: &Vec<String>) -> (out: String)
    ensures
        out@ == arrow_joined(views(names@)),
{
    let mut out = String::new();
    let mut i: usize = 0;
    while i < names.len()
        invariant
            i <= names@.len(),
            out@ == arrow_joined(views(names@).take(i as int)),
        decreases names@.len() - i,
    {
        let ghost prev = views(names@).take(i as int);
        if i > 0 {
            out.append(" -> ");
        }
        out.append(names[i].as_str());
        proof {
            let cur = views(names@).take(i + 1);
            assert(cur.drop_last() =~= prev);
            if i == 0 {
                assert(prev.len() == 0);
                assert(out@ =~= cur[0]);
            }
        }
        i += 1;
    }
    assert(views(names@).take(names@.len() as int) =~= views(names@));
    out
}

impl GraphError {
    /// The error as the text a user sees.
    pub open spec fn spec_message(&self) -> Seq<char> {
        match self {
            GraphError::EmptyFrom => "graph from must be non-empty"@,
            GraphError::EmptyTo => "graph to must be non-empty"@,
            GraphError::SelfLink { from, to } => "self-link rejected: "@ + from@ + " -> "@ + to@,
            GraphError::Cycle { cycle } => "cycle rejected: "@ + arrow_joined(views(cycle@)),
        }
    }

    /// The error as the text a user sees.
    pub fn message(&self) -> (out: String)
        ensures
            out@ == self.spec_message(),
    {
        match self {
            GraphError::EmptyFrom => to_owned_string("graph from must be non-empty"),
            GraphError::EmptyTo => to_owned_string("graph to must be non-empty"),
            GraphError::SelfLink { from, to } => {
                let mut out = to_owned_string("self-link rejected: ");
                out.append(from.as_str());
                out.append(" -> ");
                out.append(to.as_str());
                out
            },
            GraphError::Cycle { cycle } => {
                let mut out = to_owned_string("cycle rejected: ");
                let joined = join_arrows(cycle);
                out.append(joined.as_str());
                out
            },
        }
    }
}

/// Whether the characters of `s` are all whitespace (or there are none).
pub fn is_blank(s: &str) -> (r: bool)
    ensures
        r == (trim(s@).len() == 0),
{
    let cs = chars_of(s);
    let t = trimmed_range(&cs, 0, cs.len());
    assert(cs@.subrange(0, cs@.len() as int) =~= s@);
    t.len() == 0
}

/// Whether some edge of the list runs `from -> to`.
fn has_edge(edges: &Vec<LineageEdge>, from: &str, to: &str) -> (r: bool)
    ensures
        r == edge_set(edges@).contains((from@, to@)),
{
    let mut i: usize = 0;
    while i < edges.len()
        invariant
            i <= edges@.len(),
            forall|k: int| 0 <= k < i ==> #[trigger] keys(edges@)[k] != (from@, to@),
        decreases edges@.len() - i,
    {
        if str_eq(edges[i].from.as_str(), from) && str_eq(edges[i].to.as_str(), to) {
            assert(keys(edges@)[i as int] == (from@, to@));
            return true;
        }
        assert(keys(edges@)[i as int] == (edges@[i as int].from@, edges@[i as int].to@));
        i += 1;
    }
    proof {
        if edge_set(edges@).contains((from@, to@)) {
            let k = choose|k: int| 0 <= k < keys(edges@).len() && keys(edges@)[k] == (from@, to@);
            assert(keys(edges@)[k] != (from@, to@));
        }
    }
    false
}

/// Adds the lineage edge `from -> to` to a loaded graph.
///
/// Refuses blank names, a self-link, and an edge that would close a cycle
/// (reporting the cycle: `from`, then the walk from `to` back to `from`
/// that is shortest and, among the shortest, first in name order). An edge already present leaves the graph as it is;
/// otherwise the result holds the new edge and is in normal form. A graph
/// without cycles stays without cycles.
pub fn link(graph: &LineageGraph, from: &str, to: &str) -> (r: Result<LineageGraph, GraphError>)
    ensures
        trim(from@).len() == 0 ==> r is Err && r->Err_0 is EmptyFrom,
        trim(from@).len() > 0 && trim(to@).len() == 0 ==> r is Err && r->Err_0 is EmptyTo,
        trim(from@).len() > 0 && trim(to@).len() > 0 && from@ == to@ ==> r is Err && (r->Err_0 matches GraphError::SelfLink { from: f, to: t } && f@ == from@ && t@ == to@),
        trim(from@).len() > 0 && trim(to@).len() > 0 && from@ != to@ ==> {
            let es = edge_set(graph.edges@);
            if es.contains((from@, to@)) {
                r is Ok && graph_view(r->Ok_0) == graph_view(*graph)
            } else if reachable(es, to@, from@) {
                r is Err && (r->Err_0 matches GraphError::Cycle { cycle } && {
                    let c = views(cycle@);
                    &&& c.len() >= 2
                    &&& c[0] == from@
                    &&& is_walk(es, c.drop_first())
                    &&& c[1] == to@
                    &&& c.last() == from@
                    &&& is_shortest_walk(es, c.drop_first(), to@, from@)
                    &&& is_first_shortest_walk(es, c.drop_first(), to@, from@)
                })
            } else {
                r is Ok && {
                    let g = r->Ok_0;
                    &&& normalized(g)
                    &&& g.schema_version@ == graph.schema_version@
                    &&& edge_set(g.edges@) == es.insert((from@, to@))
                    &&& views(g.nodes@).to_set() == node_set(*graph).insert(from@).insert(to@)
                }
            }
        },
        r is Ok && acyclic(edge_set(graph.edges@)) ==> acyclic(edge_set(r->Ok_0.edges@)),
{
    if is_blank(from) {
        return Err(GraphError::EmptyFrom);
    }
    if is_blank(to) {
        return Err(GraphError::EmptyTo);
    }
    if str_eq(from, to) {
        return Err(GraphError::SelfLink { from: to_owned_string(from), to: to_owned_string(to) });
    }
    let ghost es = edge_set(graph.edges@);
    if has_edge(&graph.edges, from, to) {
        return Ok(copy_graph(graph));
    }
    match path_between(&graph.edges, to, from) {
        Some(path) => {
            let mut cycle: Vec<String> = Vec::new();
            cycle.push(to_owned_string(from));
            let ghost pv = views(path@);
            let mut i: usize = 0;
            while i < path.len()
                invariant
                    i <= path@.len(),
                    pv == views(path@),
                    views(cycle@) == seq![from@] + pv.take(i as int),
                decreases path@.len() - i,
            {
                let ghost before = views(cycle@);
                cycle.push(path[i].clone());
                assert(views(cycle@) =~= before.push(pv[i as int]));
                assert(views(cycle@) =~= seq![from@] + pv.take(i + 1));
                i += 1;
            }
            proof {
                assert(pv.take(pv.len() as int) =~= pv);
                assert(views(cycle@).drop_first() =~= pv);
            }
            Err(GraphError::Cycle { cycle })
        },
        None => {
            let mut g = copy_graph(graph);
            let edge = LineageEdge { from: to_owned_string(from), to: to_owned_string(to) };
            let ghost ek0 = keys(g.edges@);
            g.edges.push(edge);
            proof {
                assert(keys(g.edges@) =~= ek0.push((from@, to@)));
                assert(edge_set(g.edges@) =~= es.insert((from@, to@))) by {
                    assert forall|x| edge_set(g.edges@).contains(x) <==> es.insert((from@, to@)).contains(x) by {
                        let kk = keys(g.edges@);
                        if kk.to_set().contains(x) {
                            let m = choose|m: int| 0 <= m < kk.len() && kk[m] == x;
                            if m < ek0.len() { assert(ek0[m] == x); }
                        }
                        if ek0.to_set().contains(x) {
                            let m = choose|m: int| 0 <= m < ek0.len() && ek0[m] == x;
                            assert(kk[m] == x);
                        }
                        if x == (from@, to@) { assert(kk[ek0.len() as int] == x); }
                    }
                }
                let before_nodes = node_set(*graph);
                assert(node_set(g) =~= before_nodes.insert(from@).insert(to@)) by {
                    let kk = keys(g.edges@);
                    let fs_new = kk.map_values(|e: EdgeView| e.0);
                    let ts_new = kk.map_values(|e: EdgeView| e.1);
                    let fs_old = ek0.map_values(|e: EdgeView| e.0);
                    let ts_old = ek0.map_values(|e: EdgeView| e.1);
                    assert(fs_new =~= fs_old.push(from@));
                    assert(ts_new =~= ts_old.push(to@));
                    assert forall|x| node_set(g).contains(x) <==> before_nodes.insert(from@).insert(to@).contains(x) by {
                        if fs_new.to_set().contains(x) {
                            let m = choose|m: int| 0 <= m < fs_new.len() && fs_new[m] == x;
                            if m < fs_old.len() { assert(fs_old[m] == x); }
                        }
                        if ts_new.to_set().contains(x) {
                            let m = choose|m: int| 0 <= m < ts_new.len() && ts_new[m] == x;
                            if m < ts_old.len() { assert(ts_old[m] == x); }
                        }
                        if fs_old.to_set().contains(x) {
                            let m = choose|m: int| 0 <= m < fs_old.len() && fs_old[m] == x;
                            assert(fs_new[m] == x);
                        }
                        if ts_old.to_set().contains(x) {
                            let m = choose|m: int| 0 <= m < ts_old.len() && ts_old[m] == x;
                            assert(ts_new[m] == x);
                        }
                        if x == from@ { assert(fs_new[fs_old.len() as int] == x); }
                        if x == to@ { assert(ts_new[ts_old.len() as int] == x); }
                    }
                }
                if acyclic(es) {
                    lemma_add_edge_keeps_acyclic(es, from@, to@);
                }
            }
            Ok(normalize_graph(g))
        },
    }
}

/// One character as it appears inside a quoted DOT identifier.
pub open spec fn dot_char(c: char) -> Seq<char> {
    if c == '\\' {
        seq!['\\', '\\']
    } else if c == '"' {
        seq!['\\', '"']
    } else {
        seq![c]
    }
}

/// `s` with backslashes and double quotes escaped for DOT.
pub open spec fn spec_escape_dot(s: Seq<char>) -> Seq<char>
    decreases s.len(),
{
    if s.len() == 0 {
        Seq::empty()
    } else {
        spec_escape_dot(s.drop_last()) + dot_char(s.last())
    }
}

/// Escapes backslashes and double quotes for a quoted DOT identifier.
pub fn escape_dot(input: &str) -> (out: String)
    ensures
        out@ == spec_escape_dot(input@),
{
    let cs = chars_of(input);
    let mut out = String::new();
    let mut i: usize = 0;
    while i < cs.len()
        invariant
            i <= cs@.len(),
            cs@ == input@,
            out@ == spec_escape_dot(cs@.take(i as int)),
        decreases cs@.len() - i,
    {
        let c = cs[i];
        if c == '\\' {
            crate::text::push_char(&mut out, '\\');
            crate::text::push_char(&mut out, '\\');
        } else if c == '"' {
            crate::text::push_char(&mut out, '\\');
            crate::text::push_char(&mut out, '"');
        } else {
            crate::text::push_char(&mut out, c);
        }
        proof {
            assert(cs@.take(i + 1).drop_last() =~= cs@.take(i as int));
            assert(out@ =~= spec_escape_dot(cs@.take(i as int)) + dot_char(c));
        }
        i += 1;
    }
    assert(cs@.take(cs@.len() as int) =~= cs@);
    out
}

/// The node lines of a DOT document.
pub open spec fn dot_node_lines(nodes: Seq<Seq<char>>) -> Seq<char>
    decreases nodes.len(),
{
    if nodes.len() == 0 {
        Seq::empty()
    } else {
        dot_node_lines(nodes.drop_last()) + "  \""@ + spec_escape_dot(nodes.last()) + "\";\n"@
    }
}

/// The edge lines of a DOT document.
pub open spec fn dot_edge_lines(edges: Seq<EdgeView>) -> Seq<char>
    decreases edges.len(),
{
    if edges.len() == 0 {
        Seq::empty()
    } else {
        dot_edge_lines(edges.drop_last()) + "  \""@ + spec_escape_dot(edges.last().0) + "\" -> \""@
            + spec_escape_dot(edges.last().1) + "\";\n"@
    }
}

/// The DOT document for a graph: its nodes, then its edges, in stored order.
pub open spec fn spec_dot(g: LineageGraph) -> Seq<char> {
    "digraph StemGraph {\n"@ + dot_node_lines(views(g.nodes@)) + dot_edge_lines(keys(g.edges@))
        + "}\n"@
}

/// Renders a loaded graph as a Graphviz DOT document.
pub fn export_dot(graph: &LineageGraph) -> (dot: String)
    ensures
        dot@ == spec_dot(*graph),
{
    let mut dot = to_owned_string("digraph StemGraph {\n");
    let ghost header = dot@;
    let mut i: usize = 0;
    while i < graph.nodes.len()
        invariant
            i <= graph.nodes@.len(),
            dot@ == header + dot_node_lines(views(graph.nodes@).take(i as int)),
        decreases graph.nodes@.len() - i,
    {
        let esc = escape_dot(graph.nodes[i].as_str());
        dot.append("  \"");
        dot.append(esc.as_str());
        dot.append("\";\n");
        proof {
            let t = views(graph.nodes@).take(i + 1);
            assert(t.drop_last() =~= views(graph.nodes@).take(i as int));
            assert(t.last() == graph.nodes@[i as int]@);
            assert(dot@ =~= header + dot_node_lines(t));
        }
        i += 1;
    }
    assert(views(graph.nodes@).take(graph.nodes@.len() as int) =~= views(graph.nodes@));
    let ghost mid = dot@;
    let mut k: usize = 0;
    while k < graph.edges.len()
        invariant
            k <= graph.edges@.len(),
            dot@ == mid + dot_edge_lines(keys(graph.edges@).take(k as int)),
        decreases graph.edges@.len() - k,
    {
        let from_esc = escape_dot(graph.edges[k].from.as_str());
        let to_esc = escape_dot(graph.edges[k].to.as_str());
        dot.append("  \"");
        dot.append(from_esc.as_str());
        dot.append("\" -> \"");
        dot.append(to_esc.as_str());
        dot.append("\";\n");
        proof {
            let t = keys(graph.edges@).take(k + 1);
            assert(t.drop_last() =~= keys(graph.edges@).take(k as int));
            assert(t.last() == (graph.edges@[k as int].from@, graph.edges@[k as int].to@));
            assert(dot@ =~= mid + dot_edge_lines(t));
        }
        k += 1;
    }
    assert(keys(graph.edges@).take(graph.edges@.len() as int) =~= keys(graph.edges@));
    dot.append("}\n");
    dot
}

/// The stem graph operator's output: the loaded graph and where it is written.
pub fn write_operator_output(project_root: &str, graph: &LineageGraph) -> (out: (LineageGraph, String))
    ensures
        graph_view(out.0) == graph_view(*graph),
        out.1@ == crate::paths::join_spec(
            crate::paths::spec_operator_dir(project_root@, "stemgraph"@),
            "latest.json"@,
        ),
{
    (copy_graph(graph), crate::paths::stemgraph_operator_output_path(project_root))
}

} // verus!
