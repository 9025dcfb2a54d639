//! Modules: fixed groups of ports and the edges between them, built
//! detached and composed into a graph in one step.
use vstd::prelude::*;
use crate::graph::SignalGraph;
use crate::port::{ModuleIO, PortState, owned_node};

verus! {

/// The node list after appending the nodes that `ports` own, in order.
pub open spec fn with_owned<N>(nodes: Seq<N>, ports: Seq<PortState<N>>) -> Seq<N> {
    nodes + ports.map_values(|p: PortState<N>| owned_node(p))
}

/// Every port is unbound.
pub open spec fn all_unbound<N>(ports: Seq<PortState<N>>) -> bool {
    forall|i: int| 0 <= i < ports.len() ==> #[trigger] ports[i] is Unbound
}

/// The ports are bound to consecutive identifiers from `first`.
pub open spec fn bound_from<N>(ports: Seq<PortState<N>>, first: nat) -> bool {
    forall|i: int| 0 <= i < ports.len() ==> #[trigger] ports[i] == PortState::<N>::Bound((first + i) as usize)
}

/// Binds a port that is known to be unbound and returns its identifier.
fn bind_fresh<N>(port: &mut ModuleIO<N>, graph: &mut SignalGraph<N>) -> (id: usize)
    requires
        old(graph).wf(),
        old(port).spec_state() is Unbound,
        old(graph).spec_nodes().len() < u32::MAX,
    ensures
        final(graph).wf(),
        id == old(graph).spec_nodes().len(),
        final(port).spec_state() == PortState::<N>::Bound(id),
        final(graph).spec_nodes() == old(graph).spec_nodes().push(owned_node(old(port).spec_state())),
        final(graph).spec_edges() == old(graph).spec_edges(),
{
    port.connect(graph);
    port.index().unwrap()
}

/// A module: a fixed group of ports and edges that can be composed into a
/// graph once.
pub trait SynthModule<N>: Sized {
    /// The module is detached and `graph` has room for its nodes and edges.
    spec fn can_compose(&self, graph: SignalGraph<N>) -> bool;

    /// The module's ports, in the order in which they are bound.
    spec fn spec_port_states(&self) -> Seq<PortState<N>>;

    /// The module's edges, once its ports are bound from identifier `first`.
    spec fn spec_module_edges(&self, first: nat) -> Seq<(nat, nat)>;

    /// Binds every port of the module into `graph`, in order, and adds its
    /// edges.
    fn build_graph(self, graph: &mut SignalGraph<N>) -> (r: Self)
        requires
            old(graph).wf(),
            self.can_compose(*old(graph)),
        ensures
            final(graph).wf(),
            bound_from(r.spec_port_states(), old(graph).spec_nodes().len()),
            r.spec_port_states().len() == self.spec_port_states().len(),
            final(graph).spec_nodes() == with_owned(old(graph).spec_nodes(), self.spec_port_states()),
            final(graph).spec_edges() == old(graph).spec_edges() + self.spec_module_edges(
                old(graph).spec_nodes().len(),
            ),
    ;
}

/// An oscillator bank: one pitch input feeding sine, square, saw and
/// triangle outputs.
pub struct MultiOscillator<N> {
    v_oct: ModuleIO<N>,
    sine: ModuleIO<N>,
    square: ModuleIO<N>,
    saw: ModuleIO<N>,
    triangle: ModuleIO<N>,
}

impl<N> MultiOscillator<N> {
    /// The ports in composition order: pitch input, sine, square, saw, triangle.
    pub closed spec fn spec_ports(&self) -> Seq<PortState<N>> {
        seq![
            self.v_oct.spec_state(),
            self.sine.spec_state(),
            self.square.spec_state(),
            self.saw.spec_state(),
            self.triangle.spec_state(),
        ]
    }

    /// The module's edges once composed from identifier `c`: the pitch
    /// input into each output.
    pub open spec fn spec_edges_from(&self, c: nat) -> Seq<(nat, nat)> {
        seq![(c, c + 1), (c, c + 2), (c, c + 3), (c, c + 4)]
    }

    /// A detached module over the given nodes.
    pub fn new(v_oct: N, sine: N, square: N, saw: N, triangle: N) -> (r: Self)
        ensures
            r.spec_ports() == seq![
                PortState::Unbound(v_oct),
                PortState::Unbound(sine),
                PortState::Unbound(square),
                PortState::Unbound(saw),
                PortState::Unbound(triangle),
            ],
    {
        MultiOscillator {
            v_oct: ModuleIO::disconnected(v_oct),
            sine: ModuleIO::disconnected(sine),
            square: ModuleIO::disconnected(square),
            saw: ModuleIO::disconnected(saw),
            triangle: ModuleIO::disconnected(triangle),
        }
    }

    /// Places the five nodes in `graph`, in port order, and joins the pitch
    /// input to each output.
    pub fn build_graph(self, graph: &mut SignalGraph<N>) -> (r: Self)
        requires
            old(graph).wf(),
            all_unbound(self.spec_ports()),
            old(graph).spec_nodes().len() + 5 < u32::MAX,
            old(graph).spec_edges().len() + 4 < u32::MAX,
        ensures
            final(graph).wf(),
            r.spec_ports().len() == 5,
            bound_from(r.spec_ports(), old(graph).spec_nodes().len()),
            final(graph).spec_nodes() == with_owned(old(graph).spec_nodes(), self.spec_ports()),
            final(graph).spec_edges() == old(graph).spec_edges() + self.spec_edges_from(
                old(graph).spec_nodes().len(),
            ),
    {
        let ghost nodes = graph.spec_nodes();
        let ghost edges = graph.spec_edges();
        let mut m = self;
        let v = bind_fresh(&mut m.v_oct, graph);
        let sine = bind_fresh(&mut m.sine, graph);
        let square = bind_fresh(&mut m.square, graph);
        let saw = bind_fresh(&mut m.saw, graph);
        let triangle = bind_fresh(&mut m.triangle, graph);
        graph.add_edge(v, sine);
        graph.add_edge(v, square);
        graph.add_edge(v, saw);
        graph.add_edge(v, triangle);
        assert(graph.spec_edges() =~= edges + {
            let c = nodes.len();
            seq![(c, c + 1), (c, c + 2), (c, c + 3), (c, c + 4)]
        });
        m
    }

    /// The pitch input's identifier, once composed.
    pub fn v_oct_in(&self) -> (r: Option<usize>)
        ensures
            r == crate::port::state_index(self.spec_ports()[0]),
    {
        self.v_oct.index()
    }

    /// The sine output's identifier, once composed.
    pub fn sine_out(&self) -> (r: Option<usize>)
        ensures
            r == crate::port::state_index(self.spec_ports()[1]),
    {
        self.sine.index()
    }

    /// The square output's identifier, once composed.
    pub fn square_out(&self) -> (r: Option<usize>)
        ensures
            r == crate::port::state_index(self.spec_ports()[2]),
    {
        self.square.index()
    }

    /// The saw output's identifier, once composed.
    pub fn saw_out(&self) -> (r: Option<usize>)
        ensures
            r == crate::port::state_index(self.spec_ports()[3]),
    {
        self.saw.index()
    }

    /// The triangle output's identifier, once composed.
    pub fn triangle_out(&self) -> (r: Option<usize>)
        ensures
            r == crate::port::state_index(self.spec_ports()[4]),
    {
        self.triangle.index()
    }
}


/// The edges `(src + j, dst)` for each `j < count`, in order.
pub open spec fn fan_in(src: nat, count: nat, dst: nat) -> Seq<(nat, nat)> {
    Seq::new(count, |j: int| ((src + j) as nat, dst))
}

/// A step sequencer: a clock input advances a switch over a row of levels,
/// and the selected level drives the pitch output.
pub struct StepSequencer<N> {
    clock_in: ModuleIO<N>,
    levels: Vec<ModuleIO<N>>,
    level_switch: ModuleIO<N>,
    v_oct_out: ModuleIO<N>,
}

impl<N> StepSequencer<N> {
    /// The clock input port.
    pub closed spec fn spec_clock_in(&self) -> PortState<N> {
        self.clock_in.spec_state()
    }

    /// The level ports, one per step.
    pub closed spec fn spec_levels(&self) -> Seq<PortState<N>> {
        self.levels@.map_values(|p: ModuleIO<N>| p.spec_state())
    }

    /// The switch port.
    pub closed spec fn spec_switch(&self) -> PortState<N> {
        self.level_switch.spec_state()
    }

    /// The pitch output port.
    pub closed spec fn spec_v_oct_out(&self) -> PortState<N> {
        self.v_oct_out.spec_state()
    }

    /// All ports in composition order: the clock input, the levels in
    /// order, the switch, the output.
    pub open spec fn spec_ports(&self) -> Seq<PortState<N>> {
        seq![self.spec_clock_in()] + self.spec_levels() + seq![self.spec_switch(), self.spec_v_oct_out()]
    }

    /// The sequencer's edges once composed from identifier `c`: the clock
    /// input and then each level into the switch, and the switch into the
    /// output.
    pub open spec fn spec_edges_from(&self, c: nat) -> Seq<(nat, nat)> {
        let count = self.spec_levels().len();
        let switch = c + 1 + count;
        seq![(c, switch)] + fan_in(c + 1, count, switch) + seq![(switch, switch + 1)]
    }

    /// A detached sequencer over the given nodes; `level_switch` is to
    /// cycle through as many inputs as there are levels.
    pub fn new(clock_in: N, levels: Vec<N>, level_switch: N, v_oct_out: N) -> (r: Self)
        ensures
            r.spec_clock_in() == PortState::Unbound(clock_in),
            r.spec_switch() == PortState::Unbound(level_switch),
            r.spec_v_oct_out() == PortState::Unbound(v_oct_out),
            r.spec_levels() == levels@.map_values(|n: N| PortState::Unbound(n)),
    {
        let mut ports: Vec<ModuleIO<N>> = Vec::new();
        let mut rest = levels;
        let ghost all = rest@;
        while rest.len() > 0
            invariant
                ports@.len() + rest@.len() == all.len(),
                rest@ == all.skip(ports@.len() as int),
                forall|j: int|
                    0 <= j < ports@.len() ==> (#[trigger] ports@[j]).spec_state() == PortState::Unbound(
                        all[j],
                    ),
            decreases rest@.len(),
        {
            let node = rest.remove(0);
            ports.push(ModuleIO::disconnected(node));
        }
        let r = StepSequencer {
            clock_in: ModuleIO::disconnected(clock_in),
            levels: ports,
            level_switch: ModuleIO::disconnected(level_switch),
            v_oct_out: ModuleIO::disconnected(v_oct_out),
        };
        r
    }

    /// Places the nodes in `graph`, inputs before internal nodes before
    /// outputs (clock input, levels in order, switch, output), and joins
    /// them: the clock input first and then each level into the switch, so
    /// that the switch sees the clock as its first input and the levels
    /// after it, and the switch into the output.
    pub fn build_graph(self, graph: &mut SignalGraph<N>) -> (r: Self)
        requires
            old(graph).wf(),
            all_unbound(self.spec_ports()),
            old(graph).spec_nodes().len() + self.spec_levels().len() + 3 < u32::MAX,
            old(graph).spec_edges().len() + self.spec_levels().len() + 2 < u32::MAX,
        ensures
            final(graph).wf(),
            r.spec_levels().len() == self.spec_levels().len(),
            bound_from(r.spec_ports(), old(graph).spec_nodes().len()),
            final(graph).spec_nodes() == with_owned(old(graph).spec_nodes(), self.spec_ports()),
            final(graph).spec_edges() == old(graph).spec_edges() + self.spec_edges_from(
                old(graph).spec_nodes().len(),
            ),
    {
        let ghost ports = self.spec_ports();
        let ghost levels = self.spec_levels();
        let ghost nodes = graph.spec_nodes();
        let ghost edges = graph.spec_edges();
        let ghost c = nodes.len();
        let count = self.levels.len();
        let mut m = self;
        let clock = bind_fresh(&mut m.clock_in, graph);
        let mut pending = m.levels;
        let mut bound: Vec<ModuleIO<N>> = Vec::new();
        assert forall|j: int| 0 <= j < levels.len() implies #[trigger] levels[j] is Unbound by {
            assert(ports[j + 1] == levels[j]);
        }
        while pending.len() > 0
            invariant
                graph.wf(),
                nodes.len() == c,
                ports.len() == count + 3,
                graph.spec_nodes().len() == c + 1 + bound@.len(),
                levels.len() == count,
                c + count + 3 < u32::MAX,
                bound@.len() + pending@.len() == count,
                pending@.map_values(|p: ModuleIO<N>| p.spec_state()) == levels.skip(bound@.len() as int),
                forall|j: int| 0 <= j < levels.len() ==> #[trigger] levels[j] is Unbound,
                forall|j: int|
                    0 <= j < bound@.len() ==> (#[trigger] bound@[j]).spec_state() == PortState::<N>::Bound(
                        (c + 1 + j) as usize,
                    ),
                graph.spec_nodes() == with_owned(nodes, seq![ports[0]] + levels.take(bound@.len() as int)),
                graph.spec_edges() == edges,
            decreases pending@.len(),
        {
            let ghost k = bound@.len() as int;
            let ghost before = pending@;
            let mut port = pending.remove(0);
            assert(levels.skip(k)[0] == levels[k]);
            assert forall|i: int| 0 <= i < pending@.len() implies (#[trigger] pending@[i]).spec_state()
                == levels.skip(k + 1)[i] by {
                assert(before.map_values(|p: ModuleIO<N>| p.spec_state())[i + 1] == levels.skip(k)[i + 1]);
            }
            bind_fresh(&mut port, graph);
            bound.push(port);
        }
        assert(ports[count + 1] is Unbound && ports[count + 2] is Unbound);
        let switch = bind_fresh(&mut m.level_switch, graph);
        let out = bind_fresh(&mut m.v_oct_out, graph);
        let ghost after_nodes = graph.spec_nodes();
        graph.add_edge(clock, switch);
        let mut j: usize = 0;
        while j < count
            invariant
                graph.wf(),
                graph.spec_nodes() == after_nodes,
                after_nodes.len() == c + count + 3,
                c + count + 3 < u32::MAX,
                edges.len() + count + 2 < u32::MAX,
                switch == c + 1 + count,
                bound@.len() == count,
                forall|i: int|
                    0 <= i < bound@.len() ==> (#[trigger] bound@[i]).spec_state() == PortState::<N>::Bound(
                        (c + 1 + i) as usize,
                    ),
                j <= count,
                graph.spec_edges() == edges + seq![(c, switch as nat)] + fan_in(c + 1, j as nat, switch as nat),
            decreases count - j,
        {
            let src = bound[j].index().unwrap();
            graph.add_edge(src, switch);
            assert(fan_in(c + 1, (j + 1) as nat, switch as nat) =~= fan_in(c + 1, j as nat, switch as nat).push(
                ((c + 1 + j) as nat, switch as nat),
            ));
            j = j + 1;
        }
        graph.add_edge(switch, out);
        let r = StepSequencer { clock_in: m.clock_in, levels: bound, level_switch: m.level_switch, v_oct_out: m.v_oct_out };
        r
    }

    /// The clock input's identifier, once composed.
    pub fn clock_in(&self) -> (r: Option<usize>)
        ensures
            r == crate::port::state_index(self.spec_clock_in()),
    {
        self.clock_in.index()
    }

    /// The identifier of the level for step `index`, once composed; `None`
    /// for a step that does not exist.
    pub fn v_oct_in(&self, index: usize) -> (r: Option<usize>)
        ensures
            r == if index < self.spec_levels().len() {
                crate::port::state_index(self.spec_levels()[index as int])
            } else {
                None
            },
    {
        if index < self.levels.len() {
            self.levels[index].index()
        } else {
            None
        }
    }

    /// The pitch output's identifier, once composed.
    pub fn v_oct_out(&self) -> (r: Option<usize>)
        ensures
            r == crate::port::state_index(self.spec_v_oct_out()),
    {
        self.v_oct_out.index()
    }
}

impl<N> SynthModule<N> for MultiOscillator<N> {
    open spec fn can_compose(&self, graph: SignalGraph<N>) -> bool {
        &&& all_unbound(self.spec_ports())
        &&& graph.spec_nodes().len() + 5 < u32::MAX
        &&& graph.spec_edges().len() + 4 < u32::MAX
    }

    open spec fn spec_port_states(&self) -> Seq<PortState<N>> {
        self.spec_ports()
    }

    open spec fn spec_module_edges(&self, first: nat) -> Seq<(nat, nat)> {
        self.spec_edges_from(first)
    }

    fn build_graph(self, graph: &mut SignalGraph<N>) -> (r: Self) {
        MultiOscillator::build_graph(self, graph)
    }
}

impl<N> SynthModule<N> for StepSequencer<N> {
    open spec fn can_compose(&self, graph: SignalGraph<N>) -> bool {
        &&& all_unbound(self.spec_ports())
        &&& graph.spec_nodes().len() + self.spec_levels().len() + 3 < u32::MAX
        &&& graph.spec_edges().len() + self.spec_levels().len() + 2 < u32::MAX
    }

    open spec fn spec_port_states(&self) -> Seq<PortState<N>> {
        self.spec_ports()
    }

    open spec fn spec_module_edges(&self, first: nat) -> Seq<(nat, nat)> {
        self.spec_edges_from(first)
    }

    fn build_graph(self, graph: &mut SignalGraph<N>) -> (r: Self) {
        StepSequencer::build_graph(self, graph)
    }
}

} // verus!
