//! The signal graph: node slots in a petgraph topology, with each slot's
//! node instance stored by its identifier.
use vstd::prelude::*;
use crate::topology::{
    Topology, topology_nodes, topology_edges, topology_new, topology_add_node, topology_add_edge,
    topology_edge_count, topology_edge, topology_reversed_post_order,
};

verus! {

/// The sources of the edges into `n`, in the order in which the edges were added.
pub open spec fn sources_into(edges: Seq<(nat, nat)>, n: nat) -> Seq<nat>
    decreases edges.len(),
{
    if edges.len() == 0 {
        Seq::empty()
    } else {
        let rest = sources_into(edges.drop_last(), n);
        if edges.last().1 == n {
            rest.push(edges.last().0)
        } else {
            rest
        }
    }
}

/// A directed graph of nodes; an edge `(a, b)` makes `a`'s output an input of `b`.
pub struct SignalGraph<N> {
    topology: Topology,
    nodes: Vec<N>,
}

impl<N> SignalGraph<N> {
    /// The node instances, indexed by identifier.
    pub closed spec fn spec_nodes(&self) -> Seq<N> {
        self.nodes@
    }

    /// The edges as (source, destination) pairs, in insertion order.
    pub closed spec fn spec_edges(&self) -> Seq<(nat, nat)> {
        topology_edges(self.topology)
    }

    /// The topology and the node instances agree, and every edge joins two
    /// existing nodes.
    pub closed spec fn wf(&self) -> bool {
        &&& topology_nodes(self.topology).len() == self.nodes@.len()
        &&& self.nodes@.len() <= u32::MAX
        &&& forall|e: int|
            0 <= e < self.spec_edges().len() ==> {
                &&& (#[trigger] self.spec_edges()[e]).0 < self.nodes@.len()
                &&& self.spec_edges()[e].1 < self.nodes@.len()
            }
    }

    /// Every edge of the graph joins two existing nodes.
    pub proof fn lemma_edges_in_bounds(&self)
        requires
            self.wf(),
        ensures
            self.spec_nodes().len() <= u32::MAX,
            forall|e: int|
                0 <= e < self.spec_edges().len() ==> {
                    &&& (#[trigger] self.spec_edges()[e]).0 < self.spec_nodes().len()
                    &&& self.spec_edges()[e].1 < self.spec_nodes().len()
                },
    {
    }

    /// An empty graph.
    pub fn new() -> (r: Self)
        ensures
            r.wf(),
            r.spec_nodes() == Seq::<N>::empty(),
            r.spec_edges() == Seq::<(nat, nat)>::empty(),
    {
        SignalGraph { topology: topology_new(), nodes: Vec::new() }
    }

    /// Inserts `node` and returns its identifier, the former node count.
    pub fn add_node(&mut self, node: N) -> (id: usize)
        requires
            old(self).wf(),
            old(self).spec_nodes().len() < u32::MAX,
        ensures
            final(self).wf(),
            id == old(self).spec_nodes().len(),
            final(self).spec_nodes() == old(self).spec_nodes().push(node),
            final(self).spec_edges() == old(self).spec_edges(),
    {
        let id = topology_add_node(&mut self.topology);
        self.nodes.push(node);
        assert forall|e: int| 0 <= e < self.spec_edges().len() implies {
            &&& (#[trigger] self.spec_edges()[e]).0 < self.nodes@.len()
            &&& self.spec_edges()[e].1 < self.nodes@.len()
        } by {
            assert(self.spec_edges()[e] == old(self).spec_edges()[e]);
        }
        id
    }

    /// Adds the edge `src -> dst`: `src`'s output becomes an input of `dst`.
    pub fn add_edge(&mut self, src: usize, dst: usize)
        requires
            old(self).wf(),
            src < old(self).spec_nodes().len(),
            dst < old(self).spec_nodes().len(),
            old(self).spec_edges().len() < u32::MAX,
        ensures
            final(self).wf(),
            final(self).spec_nodes() == old(self).spec_nodes(),
            final(self).spec_edges() == old(self).spec_edges().push((src as nat, dst as nat)),
    {
        topology_add_edge(&mut self.topology, src, dst);
    }

    /// The number of nodes.
    pub fn node_count(&self) -> (r: usize)
        ensures
            r == self.spec_nodes().len(),
    {
        self.nodes.len()
    }

    /// The number of edges.
    pub fn edge_count(&self) -> (r: usize)
        ensures
            r == self.spec_edges().len(),
    {
        topology_edge_count(&self.topology)
    }

    /// The endpoints of the edge at index `e`.
    pub fn edge(&self, e: usize) -> (r: (usize, usize))
        requires
            e < self.spec_edges().len(),
        ensures
            r.0 as nat == self.spec_edges()[e as int].0,
            r.1 as nat == self.spec_edges()[e as int].1,
    {
        topology_edge(&self.topology, e)
    }

    /// The node instance registered under `id`.
    pub fn node(&self, id: usize) -> (r: &N)
        requires
            id < self.spec_nodes().len(),
        ensures
            *r == self.spec_nodes()[id as int],
    {
        &self.nodes[id]
    }

    /// Puts `node` in place of the instance registered under `id` and
    /// returns the instance it replaces.
    pub fn replace_node(&mut self, id: usize, node: N) -> (prev: N)
        requires
            old(self).wf(),
            id < old(self).spec_nodes().len(),
        ensures
            prev == old(self).spec_nodes()[id as int],
            final(self).wf(),
            final(self).spec_nodes() == old(self).spec_nodes().update(id as int, node),
            final(self).spec_edges() == old(self).spec_edges(),
    {
        let mut prev = node;
        std::mem::swap(&mut self.nodes[id], &mut prev);
        assert forall|e: int| 0 <= e < self.spec_edges().len() implies {
            &&& (#[trigger] self.spec_edges()[e]).0 < self.nodes@.len()
            &&& self.spec_edges()[e].1 < self.nodes@.len()
        } by {
            assert(self.spec_edges()[e] == old(self).spec_edges()[e]);
        }
        prev
    }

    /// A depth-first search from `start` against the edges, listing each
    /// node as it is finished; every listed node is a node of the graph.
    pub fn reversed_post_order(&self, start: usize) -> (r: Vec<usize>)
        requires
            self.wf(),
            start < self.spec_nodes().len(),
        ensures
            forall|i: int| 0 <= i < r@.len() ==> #[trigger] r@[i] < self.spec_nodes().len(),
    {
        topology_reversed_post_order(&self.topology, start)
    }

    /// The direct predecessors of `id`, in the order in which their edges
    /// were added.
    pub fn predecessors(&self, id: usize) -> (r: Vec<usize>)
        requires
            self.wf(),
        ensures
            r@.len() == sources_into(self.spec_edges(), id as nat).len(),
            forall|i: int|
                0 <= i < r@.len() ==> r@[i] as nat == #[trigger] sources_into(
                    self.spec_edges(),
                    id as nat,
                )[i],
    {
        let count = self.edge_count();
        let mut r: Vec<usize> = Vec::new();
        let mut e: usize = 0;
        while e < count
            invariant
                count == self.spec_edges().len(),
                e <= count,
                r@.len() == sources_into(self.spec_edges().take(e as int), id as nat).len(),
                forall|i: int|
                    0 <= i < r@.len() ==> r@[i] as nat == #[trigger] sources_into(
                        self.spec_edges().take(e as int),
                        id as nat,
                    )[i],
            decreases count - e,
        {
            let ghost before = self.spec_edges().take(e as int);
            let (a, b) = self.edge(e);
            assert(self.spec_edges().take(e + 1).drop_last() == before);
            if b == id {
                r.push(a);
            }
            e = e + 1;
        }
        assert(self.spec_edges().take(count as int) == self.spec_edges());
        r
    }
}

} // verus!
