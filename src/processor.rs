//! The block scheduler: the order in which the nodes that feed a sink run
//! for one block, each node once, every node after its predecessors.
use vstd::prelude::*;
use crate::graph::SignalGraph;

verus! {

/// Some edge of `edges` runs from `a` to `b`.
pub open spec fn is_edge(edges: Seq<(nat, nat)>, a: nat, b: nat) -> bool {
    exists|e: int| 0 <= e < edges.len() && #[trigger] edges[e] == (a, b)
}

/// `p` is a non-empty walk along `edges`.
pub open spec fn is_path(edges: Seq<(nat, nat)>, p: Seq<nat>) -> bool {
    &&& p.len() > 0
    &&& forall|i: int| 0 <= i < p.len() - 1 ==> is_edge(edges, #[trigger] p[i], p[i + 1])
}

/// Signal flows from `a` to `b` along zero or more edges.
pub open spec fn reaches(edges: Seq<(nat, nat)>, a: nat, b: nat) -> bool {
    exists|p: Seq<nat>| #[trigger] is_path(edges, p) && p[0] == a && p.last() == b
}

/// `order` runs exactly the nodes whose signal reaches `sink`, each once,
/// every node after all of its predecessors, and the sink last.
pub open spec fn is_evaluation_order(edges: Seq<(nat, nat)>, sink: nat, order: Seq<usize>) -> bool {
    &&& order.len() > 0
    &&& order.last() as nat == sink
    &&& order.no_duplicates()
    &&& forall|k: int| 0 <= k < order.len() ==> reaches(edges, #[trigger] order[k] as nat, sink)
    &&& forall|m: nat|
        reaches(edges, m, sink) ==> exists|k: int| 0 <= k < order.len() && #[trigger] order[k] as nat == m
    &&& forall|j: int, k: int, e: int|
        #![trigger edges[e], order[j], order[k]]
        0 <= j < order.len() && 0 <= k < order.len() && 0 <= e < edges.len() && edges[e] == (
            order[j] as nat,
            order[k] as nat,
        ) ==> j < k
}

/// In an evaluation order, every predecessor of a scheduled node is
/// scheduled too, and runs before it.
pub proof fn lemma_predecessors_run_first(edges: Seq<(nat, nat)>, sink: nat, order: Seq<usize>, k: int, e: int)
    requires
        is_evaluation_order(edges, sink, order),
        0 <= k < order.len(),
        0 <= e < edges.len(),
        edges[e].1 == order[k] as nat,
    ensures
        exists|j: int| 0 <= j < k && #[trigger] order[j] as nat == edges[e].0,
{
    lemma_reaches_from_predecessor(edges, edges[e].0, edges[e].1, sink);
    let j = choose|j: int| 0 <= j < order.len() && #[trigger] order[j] as nat == edges[e].0;
}

/// The search's order is not an evaluation order: the nodes that feed the
/// sink hold a cycle.
#[derive(PartialEq, Eq, Structural, Debug, Clone, Copy)]
pub struct CycleError;

/// Every endpoint of `edges` is below `count`.
spec fn edges_within(edges: Seq<(nat, nat)>, count: nat) -> bool {
    forall|e: int| 0 <= e < edges.len() ==> (#[trigger] edges[e]).0 < count && edges[e].1 < count
}

proof fn lemma_reaches_self(edges: Seq<(nat, nat)>, n: nat)
    ensures
        reaches(edges, n, n),
{
    let p = seq![n];
    assert(is_path(edges, p));
}

proof fn lemma_reaches_from_predecessor(edges: Seq<(nat, nat)>, p: nat, n: nat, sink: nat)
    requires
        is_edge(edges, p, n),
        reaches(edges, n, sink),
    ensures
        reaches(edges, p, sink),
{
    let q = choose|q: Seq<nat>| #[trigger] is_path(edges, q) && q[0] == n && q.last() == sink;
    let w = seq![p] + q;
    assert(is_path(edges, w));
}

/// `x` is one of the nodes of `order`.
pub open spec fn scheduled(order: Seq<usize>, x: nat) -> bool {
    exists|k: int| 0 <= k < order.len() && #[trigger] order[k] as nat == x
}

/// A node that reaches a sink inside the graph is inside the graph.
proof fn lemma_reaches_from_inside(edges: Seq<(nat, nat)>, count: nat, x: nat, sink: nat)
    requires
        edges_within(edges, count),
        sink < count,
        reaches(edges, x, sink),
    ensures
        x < count,
{
    let p = choose|p: Seq<nat>| #[trigger] is_path(edges, p) && p[0] == x && p.last() == sink;
}

/// A node other than the sink that reaches it has an edge to a node that
/// reaches it.
proof fn lemma_first_step(edges: Seq<(nat, nat)>, x: nat, sink: nat) -> (e: int)
    requires
        reaches(edges, x, sink),
        x != sink,
    ensures
        0 <= e < edges.len(),
        edges[e].0 == x,
        reaches(edges, edges[e].1, sink),
{
    let p = choose|p: Seq<nat>| #[trigger] is_path(edges, p) && p[0] == x && p.last() == sink;
    let e = choose|e: int| 0 <= e < edges.len() && #[trigger] edges[e] == (p[0], p[1]);
    let q = p.skip(1);
    assert(is_path(edges, q) && q[0] == p[1] && q.last() == sink);
    e
}

/// When every node but the last has an edge to a later node, and the last
/// is the sink, every node from index `k` on reaches the sink.
proof fn lemma_chain_reaches(edges: Seq<(nat, nat)>, sink: nat, order: Seq<usize>, k: int)
    requires
        order.len() > 0,
        order.last() as nat == sink,
        0 <= k < order.len(),
        forall|j: int|
            #![trigger order[j]]
            0 <= j < order.len() - 1 ==> exists|j2: int|
                j < j2 < order.len() && is_edge(edges, order[j] as nat, #[trigger] order[j2] as nat),
    ensures
        reaches(edges, order[k] as nat, sink),
    decreases order.len() - k,
{
    if k == order.len() - 1 {
        lemma_reaches_self(edges, sink);
    } else {
        let j2 = choose|j2: int| k < j2 < order.len() && is_edge(edges, order[k] as nat, order[j2] as nat);
        lemma_chain_reaches(edges, sink, order, j2);
        lemma_reaches_from_predecessor(edges, order[k] as nat, order[j2] as nat, sink);
    }
}

/// When every source of an edge into a scheduled node is scheduled, every
/// node on a path that ends at a scheduled node is scheduled.
proof fn lemma_path_scheduled(edges: Seq<(nat, nat)>, order: Seq<usize>, p: Seq<nat>)
    requires
        forall|e: int|
            0 <= e < edges.len() && scheduled(order, (#[trigger] edges[e]).1) ==> scheduled(order, edges[e].0),
        is_path(edges, p),
        scheduled(order, p.last()),
    ensures
        scheduled(order, p[0]),
    decreases p.len(),
{
    if p.len() > 1 {
        let q = p.drop_last();
        lemma_path_scheduled(edges, order, q);
    }
}

/// Whether `order` is an evaluation order for `sink`: exactly the nodes
/// that feed the sink, each once, every node after its predecessors, the
/// sink last.
pub fn check_evaluation_order<N>(graph: &SignalGraph<N>, sink: usize, order: &Vec<usize>) -> (r: bool)
    requires
        graph.wf(),
        sink < graph.spec_nodes().len(),
    ensures
        r == is_evaluation_order(graph.spec_edges(), sink as nat, order@),
{
    let ghost edges = graph.spec_edges();
    proof {
        graph.lemma_edges_in_bounds();
    }
    let count = graph.node_count();
    let n = order.len();
    if n == 0 {
        return false;
    }
    if order[n - 1] != sink {
        return false;
    }
    let mut pos: Vec<Option<usize>> = Vec::new();
    let mut x: usize = 0;
    while x < count
        invariant
            x <= count,
            pos@.len() == x,
            forall|y: int| 0 <= y < x ==> #[trigger] pos@[y] is None,
        decreases count - x,
    {
        pos.push(None);
        x = x + 1;
    }
    let mut k: usize = 0;
    while k < n
        invariant
            n == order@.len(),
            edges == graph.spec_edges(),
            edges_within(edges, count as nat),
            sink < count,
            count == graph.spec_nodes().len(),
            pos@.len() == count,
            k <= n,
            forall|y: int|
                0 <= y < count ==> match #[trigger] pos@[y] {
                    Some(j) => j < k && order@[j as int] == y,
                    None => forall|j: int| 0 <= j < k ==> order@[j] != y,
                },
            forall|j: int| 0 <= j < k ==> #[trigger] order@[j] < count && pos@[order@[j] as int] == Some(j as usize),
        decreases n - k,
    {
        let y = order[k];
        if y >= count {
            proof {
                if is_evaluation_order(edges, sink as nat, order@) {
                    lemma_reaches_from_inside(edges, count as nat, y as nat, sink as nat);
                }
            }
            return false;
        }
        match pos[y] {
            Some(j) => {
                return false;
            },
            None => {},
        }
        pos.set(y, Some(k));
        k = k + 1;
    }
    let m = graph.edge_count();
    let mut later: Vec<bool> = Vec::new();
    let mut j: usize = 0;
    while j < n
        invariant
            j <= n,
            later@.len() == j,
            forall|i: int| 0 <= i < j ==> !#[trigger] later@[i],
        decreases n - j,
    {
        later.push(false);
        j = j + 1;
    }
    let mut e: usize = 0;
    while e < m
        invariant
            n == order@.len(),
            n > 0,
            order@[n - 1] == sink,
            order@.no_duplicates(),
            m == edges.len(),
            edges == graph.spec_edges(),
            edges_within(edges, count as nat),
            count == graph.spec_nodes().len(),
            pos@.len() == count,
            later@.len() == n,
            e <= m,
            forall|y: int|
                0 <= y < count ==> match #[trigger] pos@[y] {
                    Some(j) => j < n && order@[j as int] == y,
                    None => forall|j: int| 0 <= j < n ==> order@[j] != y,
                },
            forall|j: int| 0 <= j < n ==> #[trigger] order@[j] < count && pos@[order@[j] as int] == Some(j as usize),
            forall|f: int|
                0 <= f < e && scheduled(order@, (#[trigger] edges[f]).1) ==> scheduled(order@, edges[f].0),
            forall|f: int, a: int, b: int|
                #![trigger edges[f], order@[a], order@[b]]
                0 <= f < e && 0 <= a < n && 0 <= b < n && edges[f] == (order@[a] as nat, order@[b] as nat) ==> a < b,
            forall|f: int, a: int, b: int|
                #![trigger edges[f], order@[a], order@[b]]
                0 <= f < e && 0 <= a < n && 0 <= b < n && edges[f] == (order@[a] as nat, order@[b] as nat) ==> later@[a],
            forall|a: int|
                0 <= a < n && #[trigger] later@[a] ==> exists|b: int|
                    a < b < n && is_edge(edges, order@[a] as nat, #[trigger] order@[b] as nat),
        decreases m - e,
    {
        let (a, b) = graph.edge(e);
        match pos[b] {
            Some(kb) => {
                match pos[a] {
                    None => {
                        proof {
                            if is_evaluation_order(edges, sink as nat, order@) {
                                lemma_reaches_from_predecessor(edges, a as nat, b as nat, sink as nat);
                            }
                        }
                        return false;
                    },
                    Some(ka) => {
                        if ka >= kb {
                            return false;
                        }
                        later.set(ka, true);
                    },
                }
            },
            None => {},
        }
        proof {
            assert forall|f: int|
                0 <= f < e + 1 && scheduled(order@, (#[trigger] edges[f]).1) implies scheduled(order@, edges[f].0) by {
                if f == e {
                    let i = choose|i: int| 0 <= i < n && #[trigger] order@[i] as nat == edges[f].1;
                    let ka = pos@[a as int]->Some_0;
                }
            }
        }
        e = e + 1;
    }
    let mut i: usize = 0;
    while i + 1 < n
        invariant
            n == order@.len(),
            n > 0,
            order@[n - 1] == sink,
            order@.no_duplicates(),
            edges == graph.spec_edges(),
            m == edges.len(),
            later@.len() == n,
            i < n,
            forall|a: int| 0 <= a < i ==> #[trigger] later@[a],
            forall|f: int, a: int, b: int|
                #![trigger edges[f], order@[a], order@[b]]
                0 <= f < m && 0 <= a < n && 0 <= b < n && edges[f] == (order@[a] as nat, order@[b] as nat) ==> a < b,
            forall|f: int, a: int, b: int|
                #![trigger edges[f], order@[a], order@[b]]
                0 <= f < m && 0 <= a < n && 0 <= b < n && edges[f] == (order@[a] as nat, order@[b] as nat) ==> later@[a],
            forall|a: int|
                0 <= a < n && #[trigger] later@[a] ==> exists|b: int|
                    a < b < n && is_edge(edges, order@[a] as nat, #[trigger] order@[b] as nat),
        decreases n - i,
    {
        if !later[i] {
            proof {
                if is_evaluation_order(edges, sink as nat, order@) {
                    let x = order@[i as int] as nat;
                    let f = lemma_first_step(edges, x, sink as nat);
                    let b = choose|b: int| 0 <= b < n && #[trigger] order@[b] as nat == edges[f].1;
                }
            }
            return false;
        }
        i = i + 1;
    }
    proof {
        assert forall|a: int|
            #![trigger order@[a]]
            0 <= a < n - 1 implies exists|b: int|
                a < b < n && is_edge(edges, order@[a] as nat, #[trigger] order@[b] as nat) by {
            assert(later@[a]);
        }
        assert forall|k: int| 0 <= k < n implies reaches(edges, #[trigger] order@[k] as nat, sink as nat) by {
            lemma_chain_reaches(edges, sink as nat, order@, k);
        }
        assert forall|y: nat| reaches(edges, y, sink as nat) implies scheduled(order@, y) by {
            let p = choose|p: Seq<nat>| #[trigger] is_path(edges, p) && p[0] == y && p.last() == sink as nat;
            lemma_path_scheduled(edges, order@, p);
        }
    }
    true
}

/// The order in which the nodes feeding `sink` run for one block, found by
/// a depth-first search against the edges and checked before it is used.
///
/// On success the order holds exactly the nodes whose signal reaches the
/// sink, each once, each after all of its predecessors, with the sink last.
pub fn evaluation_order<N>(graph: &SignalGraph<N>, sink: usize) -> (r: Result<Vec<usize>, CycleError>)
    requires
        graph.wf(),
        sink < graph.spec_nodes().len(),
    ensures
        r matches Ok(order) ==> is_evaluation_order(graph.spec_edges(), sink as nat, order@),
{
    let order = graph.reversed_post_order(sink);
    if check_evaluation_order(graph, sink, &order) {
        Ok(order)
    } else {
        Err(CycleError)
    }
}

} // verus!
