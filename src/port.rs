//! Ports: handles that own a node until it is placed in a graph, and
//! afterwards remember where it was placed.
use vstd::prelude::*;
use crate::graph::SignalGraph;

verus! {

/// Where a port stands: it owns a node not yet in any graph, or it knows
/// the identifier of its node in a graph.
pub enum PortState<N> {
    Unbound(N),
    Bound(usize),
}

/// The port state and the graph's node list after binding: an unbound
/// port's node is appended and the port takes its identifier; a bound port
/// changes nothing.
pub open spec fn bind_result<N>(state: PortState<N>, nodes: Seq<N>) -> (PortState<N>, Seq<N>) {
    match state {
        PortState::Unbound(node) => (PortState::Bound(nodes.len() as usize), nodes.push(node)),
        PortState::Bound(id) => (PortState::Bound(id), nodes),
    }
}

/// The node an unbound port owns.
pub open spec fn owned_node<N>(state: PortState<N>) -> N {
    match state {
        PortState::Unbound(node) => node,
        PortState::Bound(_) => arbitrary(),
    }
}

/// The identifier a port reports: none until it is bound.
pub open spec fn state_index<N>(state: PortState<N>) -> Option<usize> {
    match state {
        PortState::Unbound(_) => None,
        PortState::Bound(id) => Some(id),
    }
}

/// Binding an already bound port is a no-op: binding twice leaves the port
/// and the graph's nodes as binding once did, and the port reports the same
/// identifier after each binding.
pub proof fn lemma_bind_idempotent<N>(state: PortState<N>, nodes: Seq<N>)
    ensures
        bind_result(bind_result(state, nodes).0, bind_result(state, nodes).1) == bind_result(state, nodes),
        state_index(bind_result(bind_result(state, nodes).0, bind_result(state, nodes).1).0)
            == state_index(bind_result(state, nodes).0),
        state_index(bind_result(state, nodes).0) is Some,
        bind_result(state, nodes).1.len() <= nodes.len() + 1,
{
}

/// A lazily bound handle on one node of a module.
pub struct ModuleIO<N> {
    inner: PortState<N>,
}

impl<N> ModuleIO<N> {
    /// The port's state.
    pub closed spec fn spec_state(&self) -> PortState<N> {
        self.inner
    }

    /// A port already bound to the node `index`.
    pub fn connected(index: usize) -> (r: Self)
        ensures
            r.spec_state() == PortState::<N>::Bound(index),
    {
        ModuleIO { inner: PortState::Bound(index) }
    }

    /// A port that owns `node`, not yet placed in a graph.
    pub fn disconnected(node: N) -> (r: Self)
        ensures
            r.spec_state() == PortState::Unbound(node),
    {
        ModuleIO { inner: PortState::Unbound(node) }
    }

    /// Places the owned node in `graph` and keeps its identifier; does
    /// nothing once the port is bound.
    pub fn connect(&mut self, graph: &mut SignalGraph<N>)
        requires
            old(graph).wf(),
            old(self).spec_state() is Unbound ==> old(graph).spec_nodes().len() < u32::MAX,
        ensures
            final(graph).wf(),
            (final(self).spec_state(), final(graph).spec_nodes()) == bind_result(
                old(self).spec_state(),
                old(graph).spec_nodes(),
            ),
            final(graph).spec_edges() == old(graph).spec_edges(),
    {
        let mut state = PortState::Bound(0);
        std::mem::swap(&mut self.inner, &mut state);
        match state {
            PortState::Unbound(node) => {
                let id = graph.add_node(node);
                self.inner = PortState::Bound(id);
            },
            PortState::Bound(id) => {
                self.inner = PortState::Bound(id);
            },
        }
    }

    /// The bound identifier, or `None` while the port is unbound.
    pub fn index(&self) -> (r: Option<usize>)
        ensures
            r == state_index(self.spec_state()),
    {
        match &self.inner {
            PortState::Unbound(_) => None,
            PortState::Bound(id) => Some(*id),
        }
    }
}

} // verus!
