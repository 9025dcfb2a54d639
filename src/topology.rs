//! The directed graph that holds the signal routing, kept in petgraph.
use vstd::prelude::*;

verus! {

/// The petgraph graph that carries the routing: node and edge weights are
/// empty, the nodes' own data lives beside it.
pub type Topology = petgraph::Graph<(), (), petgraph::Directed, u32>;

#[verifier::external_type_specification]
#[verifier::external_body]
pub struct ExDirected(petgraph::Directed);

#[verifier::external_type_specification]
#[verifier::external_body]
#[verifier::reject_recursive_types(N)]
#[verifier::reject_recursive_types(E)]
#[verifier::reject_recursive_types(Ty)]
#[verifier::reject_recursive_types(Ix)]
pub struct ExGraph<N, E, Ty, Ix>(petgraph::Graph<N, E, Ty, Ix>);

/// The node weights of a topology, in index order.
pub uninterp spec fn topology_nodes(g: Topology) -> Seq<()>;

/// The edges of a topology as (source, target) index pairs, in the order
/// in which they were added.
pub uninterp spec fn topology_edges(g: Topology) -> Seq<(nat, nat)>;

/// Relies on petgraph::Graph::new: the graph starts with no nodes and no edges.
#[verifier::external_body]
pub(crate) fn topology_new() -> (r: Topology)
    ensures
        topology_nodes(r) == Seq::<()>::empty(),
        topology_edges(r) == Seq::<(nat, nat)>::empty(),
{
    petgraph::Graph::new()
}

/// Relies on petgraph::Graph::add_node: the node is appended and its index
/// is the former node count; it panics only at the index type's maximum.
#[verifier::external_body]
pub(crate) fn topology_add_node(g: &mut Topology) -> (r: usize)
    requires
        topology_nodes(*old(g)).len() < u32::MAX,
    ensures
        r == topology_nodes(*old(g)).len(),
        topology_nodes(*final(g)) == topology_nodes(*old(g)).push(()),
        topology_edges(*final(g)) == topology_edges(*old(g)),
{
    g.add_node(()).index()
}

/// Relies on petgraph::Graph::add_edge: the edge is appended to the edge
/// list; it panics when an endpoint is out of bounds or at the index
/// type's maximum.
#[verifier::external_body]
pub(crate) fn topology_add_edge(g: &mut Topology, a: usize, b: usize)
    requires
        a < topology_nodes(*old(g)).len(),
        b < topology_nodes(*old(g)).len(),
        topology_edges(*old(g)).len() < u32::MAX,
    ensures
        topology_nodes(*final(g)) == topology_nodes(*old(g)),
        topology_edges(*final(g)) == topology_edges(*old(g)).push((a as nat, b as nat)),
{
    g.add_edge(petgraph::graph::NodeIndex::new(a), petgraph::graph::NodeIndex::new(b), ());
}

/// Relies on petgraph::Graph::edge_count: the length of the edge list.
#[verifier::external_body]
pub(crate) fn topology_edge_count(g: &Topology) -> (r: usize)
    ensures
        r == topology_edges(*g).len(),
{
    g.edge_count()
}

/// Relies on petgraph::Graph::raw_edges and Edge::source / Edge::target:
/// the endpoints of the edge at index `e`.
#[verifier::external_body]
pub(crate) fn topology_edge(g: &Topology, e: usize) -> (r: (usize, usize))
    requires
        e < topology_edges(*g).len(),
    ensures
        r.0 as nat == topology_edges(*g)[e as int].0,
        r.1 as nat == topology_edges(*g)[e as int].1,
{
    let edge = &g.raw_edges()[e];
    (edge.source().index(), edge.target().index())
}

/// Relies on petgraph::visit::DfsPostOrder over petgraph::visit::Reversed,
/// driven by Walker::iter: a depth-first search from `start` against the
/// edges, listing each node it finishes. Every listed node is a node of the
/// graph; the search panics on a start outside the graph.
#[verifier::external_body]
pub(crate) fn topology_reversed_post_order(g: &Topology, start: usize) -> (r: Vec<usize>)
    requires
        start < topology_nodes(*g).len(),
    ensures
        forall|i: int| 0 <= i < r@.len() ==> #[trigger] r@[i] < topology_nodes(*g).len(),
{
    let search = petgraph::visit::DfsPostOrder::new(
        petgraph::visit::Reversed(g),
        petgraph::graph::NodeIndex::new(start),
    );
    petgraph::visit::Walker::iter(search, petgraph::visit::Reversed(g)).map(|n| n.index()).collect()
}

} // verus!
