use synth::graph::SignalGraph;
use synth::port::ModuleIO;
use synth::processor::{check_evaluation_order, evaluation_order, CycleError};

fn position(order: &[usize], id: usize) -> usize {
    order.iter().position(|&n| n == id).expect("node missing from the order")
}

#[test]
fn add_node_returns_consecutive_ids() {
    let mut g: SignalGraph<&str> = SignalGraph::new();
    assert_eq!(g.add_node("a"), 0);
    assert_eq!(g.add_node("b"), 1);
    assert_eq!(g.add_node("c"), 2);
    assert_eq!(g.node_count(), 3);
    assert_eq!(*g.node(1), "b");
}

#[test]
fn edges_keep_insertion_order() {
    let mut g: SignalGraph<u8> = SignalGraph::new();
    for i in 0..4 {
        g.add_node(i);
    }
    g.add_edge(2, 3);
    g.add_edge(0, 3);
    g.add_edge(1, 2);
    g.add_edge(1, 3);
    assert_eq!(g.edge_count(), 4);
    assert_eq!(g.edge(0), (2, 3));
    assert_eq!(g.edge(2), (1, 2));
    assert_eq!(g.predecessors(3), vec![2, 0, 1]);
    assert_eq!(g.predecessors(2), vec![1]);
    assert_eq!(g.predecessors(0), Vec::<usize>::new());
}

#[test]
fn replace_node_swaps_the_instance() {
    let mut g: SignalGraph<u32> = SignalGraph::new();
    g.add_node(7);
    g.add_node(8);
    assert_eq!(g.replace_node(1, 80), 8);
    assert_eq!(*g.node(1), 80);
    assert_eq!(*g.node(0), 7);
}

#[test]
fn diamond_runs_shared_predecessor_once() {
    // a feeds b and c, which both feed the sink d.
    let mut g: SignalGraph<char> = SignalGraph::new();
    let a = g.add_node('a');
    let b = g.add_node('b');
    let c = g.add_node('c');
    let d = g.add_node('d');
    g.add_edge(a, b);
    g.add_edge(a, c);
    g.add_edge(b, d);
    g.add_edge(c, d);
    let order = evaluation_order(&g, d).unwrap();
    assert_eq!(order.len(), 4);
    assert_eq!(order.iter().filter(|&&n| n == a).count(), 1);
    assert_eq!(*order.last().unwrap(), d);
    assert!(position(&order, a) < position(&order, b));
    assert!(position(&order, a) < position(&order, c));
    assert!(position(&order, b) < position(&order, d));
    assert!(position(&order, c) < position(&order, d));
}

#[test]
fn order_runs_predecessors_first() {
    // A chain inserted against its signal direction, plus a side branch.
    let mut g: SignalGraph<u8> = SignalGraph::new();
    for i in 0..6 {
        g.add_node(i);
    }
    g.add_edge(4, 5);
    g.add_edge(3, 4);
    g.add_edge(2, 3);
    g.add_edge(0, 3);
    g.add_edge(1, 0);
    let order = evaluation_order(&g, 5).unwrap();
    assert_eq!(order.len(), 6);
    for e in 0..g.edge_count() {
        let (src, dst) = g.edge(e);
        assert!(position(&order, src) < position(&order, dst));
    }
    assert_eq!(*order.last().unwrap(), 5);
}

#[test]
fn order_leaves_out_nodes_that_do_not_feed_the_sink() {
    let mut g: SignalGraph<u8> = SignalGraph::new();
    for i in 0..5 {
        g.add_node(i);
    }
    g.add_edge(0, 1);
    g.add_edge(1, 2);
    g.add_edge(2, 3);
    g.add_edge(4, 0);
    let order = evaluation_order(&g, 1).unwrap();
    assert_eq!(order, vec![4, 0, 1]);
}

#[test]
fn source_node_as_sink_runs_alone() {
    let mut g: SignalGraph<u8> = SignalGraph::new();
    g.add_node(0);
    g.add_node(1);
    g.add_edge(0, 1);
    assert_eq!(evaluation_order(&g, 0).unwrap(), vec![0]);
}

#[test]
fn cycle_feeding_the_sink_is_reported() {
    let mut g: SignalGraph<u8> = SignalGraph::new();
    for i in 0..3 {
        g.add_node(i);
    }
    g.add_edge(0, 1);
    g.add_edge(1, 0);
    g.add_edge(1, 2);
    assert_eq!(evaluation_order(&g, 2), Err(CycleError));
}

#[test]
fn self_loop_is_reported() {
    let mut g: SignalGraph<u8> = SignalGraph::new();
    g.add_node(0);
    g.add_edge(0, 0);
    assert_eq!(evaluation_order(&g, 0), Err(CycleError));
}

#[test]
fn binding_twice_keeps_one_node() {
    let mut g: SignalGraph<&str> = SignalGraph::new();
    g.add_node("other");
    let mut port = ModuleIO::disconnected("osc");
    assert_eq!(port.index(), None);
    port.connect(&mut g);
    let first = port.index();
    port.connect(&mut g);
    assert_eq!(first, Some(1));
    assert_eq!(port.index(), first);
    assert_eq!(g.node_count(), 2);
    assert_eq!(*g.node(1), "osc");
}

#[test]
fn connected_port_is_never_inserted() {
    let mut g: SignalGraph<&str> = SignalGraph::new();
    g.add_node("x");
    let mut port: ModuleIO<&str> = ModuleIO::connected(0);
    port.connect(&mut g);
    assert_eq!(port.index(), Some(0));
    assert_eq!(g.node_count(), 1);
}

#[test]
fn cycle_away_from_the_sink_is_not_scheduled() {
    let mut g: SignalGraph<u8> = SignalGraph::new();
    for i in 0..4 {
        g.add_node(i);
    }
    g.add_edge(0, 1);
    g.add_edge(2, 3);
    g.add_edge(3, 2);
    g.add_edge(1, 2);
    assert_eq!(evaluation_order(&g, 1).unwrap(), vec![0, 1]);
}

#[test]
fn order_check_accepts_exactly_valid_orders() {
    // a feeds b and c, which both feed the sink d; e feeds nothing.
    let mut g: SignalGraph<u8> = SignalGraph::new();
    for i in 0..5 {
        g.add_node(i);
    }
    g.add_edge(0, 1);
    g.add_edge(0, 2);
    g.add_edge(1, 3);
    g.add_edge(2, 3);
    assert!(check_evaluation_order(&g, 3, &vec![0, 1, 2, 3]));
    assert!(check_evaluation_order(&g, 3, &vec![0, 2, 1, 3]));
    // Out of order, a missing predecessor, a duplicate, an extra node,
    // the sink not last, an unknown node, and an empty order.
    assert!(!check_evaluation_order(&g, 3, &vec![1, 0, 2, 3]));
    assert!(!check_evaluation_order(&g, 3, &vec![0, 1, 3]));
    assert!(!check_evaluation_order(&g, 3, &vec![0, 1, 1, 2, 3]));
    assert!(!check_evaluation_order(&g, 3, &vec![4, 0, 1, 2, 3]));
    assert!(!check_evaluation_order(&g, 3, &vec![0, 1, 2, 3, 2]));
    assert!(!check_evaluation_order(&g, 3, &vec![0, 1, 2, 9, 3]));
    assert!(!check_evaluation_order(&g, 3, &vec![]));
}
