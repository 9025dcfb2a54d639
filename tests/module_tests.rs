use synth::graph::SignalGraph;
use synth::modules::{MultiOscillator, StepSequencer, SynthModule};
use synth::processor::evaluation_order;

#[test]
fn multi_oscillator_binds_and_wires() {
    let mut g: SignalGraph<&str> = SignalGraph::new();
    g.add_node("clock");
    let osc = MultiOscillator::new("pitch", "sine", "square", "saw", "triangle");
    assert_eq!(osc.sine_out(), None);
    let osc = osc.build_graph(&mut g);
    assert_eq!(osc.v_oct_in(), Some(1));
    assert_eq!(osc.sine_out(), Some(2));
    assert_eq!(osc.square_out(), Some(3));
    assert_eq!(osc.saw_out(), Some(4));
    assert_eq!(osc.triangle_out(), Some(5));
    assert_eq!(g.node_count(), 6);
    assert_eq!(*g.node(4), "saw");
    for out in 2..6 {
        assert_eq!(g.predecessors(out), vec![1]);
    }
    assert_eq!(g.edge_count(), 4);
}

#[test]
fn step_sequencer_feeds_clock_first_then_levels() {
    let mut g: SignalGraph<String> = SignalGraph::new();
    let clock = g.add_node("clock".to_string());
    let levels = vec!["l0".to_string(), "l1".to_string(), "l2".to_string(), "l3".to_string()];
    let seq = StepSequencer::new("in".to_string(), levels, "switch".to_string(), "out".to_string());
    assert_eq!(seq.clock_in(), None);
    let seq = seq.build_graph(&mut g);
    g.add_edge(clock, seq.clock_in().unwrap());
    // Inputs first, then the switch, then the output.
    assert_eq!(seq.clock_in(), Some(1));
    assert_eq!(seq.v_oct_in(0), Some(2));
    assert_eq!(seq.v_oct_in(3), Some(5));
    assert_eq!(seq.v_oct_in(4), None);
    assert_eq!(seq.v_oct_out(), Some(7));
    assert_eq!(g.node(6).as_str(), "switch");
    assert_eq!(g.node(2).as_str(), "l0");
    assert_eq!(g.predecessors(6), vec![1, 2, 3, 4, 5]);
    assert_eq!(g.predecessors(7), vec![6]);
    let order = evaluation_order(&g, 7).unwrap();
    assert_eq!(order.len(), 8);
    assert_eq!(order[0], clock);
    assert_eq!(*order.last().unwrap(), 7);
}

#[test]
fn modules_compose_into_one_graph() {
    let mut g: SignalGraph<u32> = SignalGraph::new();
    let seq = StepSequencer::new(100, vec![101, 102], 103, 104).build_graph(&mut g);
    let osc = MultiOscillator::new(200, 201, 202, 203, 204).build_graph(&mut g);
    g.add_edge(seq.v_oct_out().unwrap(), osc.v_oct_in().unwrap());
    let sink = g.add_node(300);
    g.add_edge(osc.sine_out().unwrap(), sink);
    let order = evaluation_order(&g, sink).unwrap();
    let mut ids: Vec<u32> = order.iter().map(|&n| *g.node(n)).collect();
    assert_eq!(ids[ids.len() - 2..], [201, 300]);
    ids.sort();
    assert_eq!(ids, vec![100, 101, 102, 103, 104, 200, 201, 300]);
    for e in 0..g.edge_count() {
        let (src, dst) = g.edge(e);
        let at = |id: usize| order.iter().position(|&n| n == id);
        if let Some(d) = at(dst) {
            assert!(at(src).unwrap() < d);
        }
    }
}

fn compose<M: SynthModule<u32>>(module: M, graph: &mut SignalGraph<u32>) -> M {
    module.build_graph(graph)
}

#[test]
fn modules_compose_through_the_trait() {
    let mut g: SignalGraph<u32> = SignalGraph::new();
    let osc = compose(MultiOscillator::new(1, 2, 3, 4, 5), &mut g);
    let seq = compose(StepSequencer::new(6, vec![7], 8, 9), &mut g);
    assert_eq!(osc.triangle_out(), Some(4));
    assert_eq!(seq.v_oct_in(0), Some(6));
    assert_eq!(seq.v_oct_out(), Some(8));
    assert_eq!(g.node_count(), 9);
    assert_eq!(g.edge_count(), 7);
    assert_eq!(*g.node(7), 8);
    assert_eq!(g.predecessors(7), vec![5, 6]);
}
