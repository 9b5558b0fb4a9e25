use joduga::ffi::{NodeConnection, NodeDesc, NodeType};
use joduga::shadow_graph::{Edge, Node, ShadowGraph};
use std::collections::HashMap;

fn node(id: u32, t: NodeType, ni: u32, no: u32) -> Node {
    Node { id, node_type: t, num_inputs: ni, num_outputs: no, parameters: HashMap::new() }
}

fn edge(from: u32, out: u32, to: u32, inp: u32) -> Edge {
    Edge { from_node_id: from, from_output_idx: out, to_node_id: to, to_input_idx: inp }
}

#[test]
fn module_example_compiles_two_nodes() {
    let mut g = ShadowGraph::new(1);
    g.add_node(node(0, NodeType::Oscillator, 0, 1)).unwrap();
    g.add_node(node(1, NodeType::Output, 1, 0)).unwrap();
    g.add_edge(edge(0, 0, 1, 0)).unwrap();
    let (descs, conns, exec_order) = g.compile().unwrap();
    assert_eq!(exec_order, vec![0, 1]);
    assert_eq!(descs.len(), 2);
    assert_eq!(conns.len(), 1);
}

#[test]
fn error_messages_are_exact() {
    let mut g = ShadowGraph::new(1);
    g.add_node(node(7, NodeType::Oscillator, 0, 1)).unwrap();
    g.add_node(node(12, NodeType::Output, 2, 0)).unwrap();
    assert_eq!(
        g.add_node(node(7, NodeType::Gain, 1, 1)).unwrap_err(),
        "Node 7 already exists"
    );
    assert_eq!(g.add_edge(edge(99, 0, 12, 0)).unwrap_err(), "Source node 99 does not exist");
    assert_eq!(
        g.add_edge(edge(7, 3, 12, 0)).unwrap_err(),
        "Node 7 has 1 outputs, requested idx 3"
    );
    assert_eq!(g.add_edge(edge(7, 0, 1000, 0)).unwrap_err(), "Target node 1000 does not exist");
    assert_eq!(
        g.add_edge(edge(7, 0, 12, 2)).unwrap_err(),
        "Node 12 has 2 inputs, requested idx 2"
    );
    assert_eq!(g.remove_edge(7, 12).unwrap_err(), "No edge from 7 to 12");
    assert_eq!(g.remove_node(4294967295).unwrap_err(), "Node 4294967295 does not exist");
    // Refused requests leave the graph as it was.
    assert_eq!(g.nodes.len(), 2);
    assert!(g.edges.is_empty());
}

#[test]
fn limits_are_checked_before_other_refusals() {
    let mut g = ShadowGraph::new(0);
    for id in 0..256u32 {
        g.add_node(node(id, NodeType::Gain, 1, 1)).unwrap();
    }
    // Taken id is reported before the node limit.
    assert_eq!(g.add_node(node(3, NodeType::Gain, 1, 1)).unwrap_err(), "Node 3 already exists");
    assert_eq!(
        g.add_node(node(300, NodeType::Gain, 1, 1)).unwrap_err(),
        "Maximum node count (256) reached"
    );
    // The edge limit is reported before a missing source.
    let mut h = ShadowGraph::new(0);
    h.add_node(node(0, NodeType::Oscillator, 0, 2000)).unwrap();
    h.add_node(node(1, NodeType::Output, 2000, 0)).unwrap();
    for i in 0..1024u32 {
        h.add_edge(edge(0, i, 1, i)).unwrap();
    }
    assert_eq!(
        h.add_edge(edge(55, 0, 1, 0)).unwrap_err(),
        "Maximum edge count (1024) reached"
    );
}

#[test]
fn remove_edge_removes_every_parallel_wire_only() {
    let mut g = ShadowGraph::new(2);
    g.add_node(node(0, NodeType::Oscillator, 0, 2)).unwrap();
    g.add_node(node(1, NodeType::Filter, 2, 1)).unwrap();
    g.add_node(node(2, NodeType::Output, 1, 0)).unwrap();
    g.add_edge(edge(0, 0, 1, 0)).unwrap();
    g.add_edge(edge(1, 0, 2, 0)).unwrap();
    g.add_edge(edge(0, 1, 1, 1)).unwrap();
    g.remove_edge(0, 1).unwrap();
    assert_eq!(g.edges, vec![edge(1, 0, 2, 0)]);
}

#[test]
fn remove_node_keeps_unrelated_edges_in_order() {
    let mut g = ShadowGraph::new(3);
    for id in 0..4u32 {
        g.add_node(node(id, NodeType::Gain, 2, 2)).unwrap();
    }
    g.add_edge(edge(0, 0, 1, 0)).unwrap();
    g.add_edge(edge(2, 0, 3, 0)).unwrap();
    g.add_edge(edge(1, 0, 2, 0)).unwrap();
    g.add_edge(edge(0, 1, 3, 1)).unwrap();
    g.remove_node(1).unwrap();
    assert_eq!(g.edges, vec![edge(2, 0, 3, 0), edge(0, 1, 3, 1)]);
    assert!(!g.nodes.contains_key(&1));
    assert_eq!(g.nodes.len(), 3);
}

#[test]
fn compile_carries_node_data_and_edges() {
    let mut g = ShadowGraph::new(5);
    g.add_node(node(5, NodeType::Output, 1, 0)).unwrap();
    g.add_node(node(3, NodeType::Delay, 1, 1)).unwrap();
    g.add_node(node(1, NodeType::Reverb, 0, 1)).unwrap();
    g.add_edge(edge(3, 0, 5, 0)).unwrap();
    g.add_edge(edge(1, 0, 3, 0)).unwrap();
    let (descs, conns, order) = g.compile().unwrap();
    assert_eq!(order, vec![1, 3, 5]);
    assert_eq!(
        descs,
        vec![
            NodeDesc { node_id: 1, node_type: NodeType::Reverb, num_inputs: 0, num_outputs: 1 },
            NodeDesc { node_id: 3, node_type: NodeType::Delay, num_inputs: 1, num_outputs: 1 },
            NodeDesc { node_id: 5, node_type: NodeType::Output, num_inputs: 1, num_outputs: 0 },
        ]
    );
    assert_eq!(
        conns,
        vec![
            NodeConnection { from_node_id: 3, from_output_idx: 0, to_node_id: 5, to_input_idx: 0 },
            NodeConnection { from_node_id: 1, from_output_idx: 0, to_node_id: 3, to_input_idx: 0 },
        ]
    );
}

#[test]
fn kahn_order_is_fifo_with_ascending_freed_successors() {
    // 1 -> 9, 1 -> 4, 2 -> 3; roots 1 and 2 in ascending order, then the
    // successors that 1 frees (4, 9 in ascending order), then those of 2.
    let mut g = ShadowGraph::new(9);
    for id in [9u32, 4, 3, 2, 1] {
        g.add_node(node(id, NodeType::Gain, 1, 2)).unwrap();
    }
    g.add_edge(edge(1, 0, 9, 0)).unwrap();
    g.add_edge(edge(1, 1, 4, 0)).unwrap();
    g.add_edge(edge(2, 0, 3, 0)).unwrap();
    assert_eq!(g.topological_sort().unwrap(), vec![1, 2, 4, 9, 3]);
}

#[test]
fn self_loop_and_empty_graph() {
    let mut g = ShadowGraph::new(0);
    // An empty graph has no output node.
    assert_eq!(g.validate().unwrap_err(), "Output node 0 does not exist");
    assert_eq!(g.topological_sort().unwrap_err(), "Output node 0 does not exist");
    g.add_node(node(0, NodeType::Gain, 1, 1)).unwrap();
    assert_eq!(g.topological_sort().unwrap(), vec![0]);
    g.add_edge(edge(0, 0, 0, 0)).unwrap();
    assert_eq!(g.validate().unwrap_err(), "Graph contains a cycle");
    assert_eq!(g.topological_sort().unwrap_err(), "Graph contains a cycle");
}

#[test]
fn validate_reports_edges_that_do_not_fit() {
    // Edges written straight into the public field are checked too, in
    // order, before the cycle check.
    let mut g = ShadowGraph::new(0);
    g.add_node(node(0, NodeType::Gain, 1, 1)).unwrap();
    g.add_node(node(1, NodeType::Output, 1, 0)).unwrap();
    g.edges.push(edge(0, 0, 1, 0));
    g.edges.push(edge(42, 0, 0, 0));
    g.edges.push(edge(1, 0, 0, 0));
    assert_eq!(g.validate().unwrap_err(), "Source node 42 does not exist");
    assert_eq!(g.topological_sort().unwrap_err(), "Source node 42 does not exist");
    assert_eq!(g.compile().unwrap_err(), "Source node 42 does not exist");
    g.edges.remove(1);
    assert_eq!(g.validate().unwrap_err(), "Node 1 has 0 outputs, requested idx 0");
    g.edges[1] = edge(0, 0, 1, 3);
    assert_eq!(g.validate().unwrap_err(), "Node 1 has 1 inputs, requested idx 3");
    g.edges[1] = edge(0, 0, 7, 0);
    assert_eq!(g.compile().unwrap_err(), "Target node 7 does not exist");
    g.edges.pop();
    assert_eq!(g.compile().unwrap().2, vec![0, 1]);
}

#[test]
fn validate_requires_the_output_node() {
    let mut g = ShadowGraph::new(9);
    g.add_node(node(0, NodeType::Oscillator, 0, 1)).unwrap();
    g.add_node(node(1, NodeType::Output, 1, 0)).unwrap();
    g.add_edge(edge(0, 0, 1, 0)).unwrap();
    assert_eq!(g.validate().unwrap_err(), "Output node 9 does not exist");
    assert_eq!(g.compile().unwrap_err(), "Output node 9 does not exist");
    g.output_node_id = 1;
    assert!(g.validate().is_ok());
    assert_eq!(g.compile().unwrap().2, vec![0, 1]);
}

#[test]
fn validate_agrees_with_sort_on_built_graphs() {
    let mut g = ShadowGraph::new(0);
    for id in 0..5u32 {
        g.add_node(node(id, NodeType::Gain, 4, 4)).unwrap();
    }
    g.add_edge(edge(0, 0, 1, 0)).unwrap();
    g.add_edge(edge(1, 0, 2, 0)).unwrap();
    g.add_edge(edge(3, 0, 4, 0)).unwrap();
    assert!(g.validate().is_ok());
    assert!(g.topological_sort().is_ok());
    g.add_edge(edge(2, 0, 0, 1)).unwrap();
    assert!(g.validate().is_err());
    assert!(g.topological_sort().is_err());
    g.remove_edge(2, 0).unwrap();
    assert!(g.validate().is_ok());
    assert_eq!(g.topological_sort().unwrap(), vec![0, 3, 1, 4, 2]);
}

#[test]
fn order_ignores_edge_insertion_order_ports_and_kinds() {
    // Diamond 40 -> {30, 10} -> 20, plus a second source 50 -> 20.
    let mut g1 = ShadowGraph::new(20);
    for (id, t) in [(40, NodeType::Oscillator), (30, NodeType::Filter), (10, NodeType::Gain), (20, NodeType::Output), (50, NodeType::Oscillator)] {
        g1.add_node(node(id, t, 2, 2)).unwrap();
    }
    for e in [edge(40, 0, 30, 0), edge(40, 1, 10, 0), edge(30, 0, 20, 0), edge(10, 0, 20, 1), edge(50, 0, 20, 0)] {
        g1.add_edge(e).unwrap();
    }
    let mut g2 = ShadowGraph::new(20);
    for (id, t) in [(20, NodeType::Delay), (50, NodeType::Gain), (10, NodeType::Filter), (40, NodeType::Gain), (30, NodeType::Reverb)] {
        g2.add_node(node(id, t, 3, 3)).unwrap();
    }
    for e in [edge(50, 2, 20, 1), edge(10, 1, 20, 2), edge(40, 2, 10, 1), edge(30, 1, 20, 0), edge(40, 0, 30, 2)] {
        g2.add_edge(e).unwrap();
    }
    let o1 = g1.topological_sort().unwrap();
    let o2 = g2.topological_sort().unwrap();
    assert_eq!(o1, o2);
    // Sources first, in ascending id order.
    assert_eq!(&o1[..2], &[40, 50]);
    assert_eq!(o1, vec![40, 50, 10, 30, 20]);
}
