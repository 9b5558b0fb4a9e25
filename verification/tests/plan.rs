use joduga::commands::{EngineEdgeInfo, EngineNodeInfo, ParamPair};
use joduga::ffi::NodeType;
use joduga::param_hash;
use joduga::plan::{
    build_graph, editor_output_id, editor_remove_node, finish_wire, initial_params, plan_editor_start,
    plan_engine_start, EditorNode,
    EditorWire, ParamValue, ParamWrite,
};

fn info(id: u32, kind: &str, ins: u32, outs: u32, subtype: u32, params: Vec<ParamPair>) -> EngineNodeInfo {
    EngineNodeInfo {
        id,
        engine_type: kind.into(),
        num_inputs: ins,
        num_outputs: outs,
        engine_subtype: subtype,
        params,
    }
}

fn wire(from_node: u32, from_port: u32, to_node: u32, to_port: u32) -> EngineEdgeInfo {
    EngineEdgeInfo { from_node, from_port, to_node, to_port }
}

fn chain() -> (Vec<EngineNodeInfo>, Vec<EngineEdgeInfo>) {
    let nodes = vec![
        info(5, "Output", 1, 0, 0, vec![]),
        info(3, "Filter", 1, 1, 2, vec![ParamPair { hash: param_hash::FILTER_CUTOFF, value_bits: 2000.0f32.to_bits() }]),
        info(
            1,
            "Oscillator",
            0,
            1,
            1,
            vec![
                ParamPair { hash: param_hash::OSC_FREQUENCY, value_bits: 440.0f32.to_bits() },
                ParamPair { hash: param_hash::DUTY_CYCLE, value_bits: 0.5f32.to_bits() },
            ],
        ),
    ];
    let wires = vec![wire(1, 0, 3, 0), wire(3, 0, 5, 0)];
    (nodes, wires)
}

#[test]
fn plan_compiles_a_chain_and_lists_writes() {
    let (nodes, wires) = chain();
    let plan = plan_engine_start(&nodes, &wires).expect("plan");
    assert_eq!(plan.output_id, 5);
    assert_eq!(plan.order, vec![1, 3, 5]);
    let ids: Vec<u32> = plan.nodes.iter().map(|d| d.node_id).collect();
    assert_eq!(ids, vec![1, 3, 5]);
    assert_eq!(plan.nodes[0].node_type, NodeType::Oscillator);
    assert_eq!(plan.nodes[1].num_inputs, 1);
    assert_eq!(plan.nodes[2].num_outputs, 0);
    assert_eq!(plan.connections.len(), 2);
    assert_eq!(plan.connections[0].from_node_id, 1);
    assert_eq!(plan.connections[1].to_node_id, 5);
    assert_eq!(plan.graph.nodes.len(), 3);
    assert_eq!(plan.graph.output_node_id, 5);
    assert!(plan.graph.nodes.values().all(|n| n.parameters.is_empty()));
    assert_eq!(
        plan.params,
        vec![
            ParamWrite { node_id: 3, hash: param_hash::FILTER_CUTOFF, value: ParamValue::Bits(2000.0f32.to_bits()) },
            ParamWrite { node_id: 3, hash: param_hash::FILTER_MODE, value: ParamValue::Selector(2) },
            ParamWrite { node_id: 1, hash: param_hash::OSC_FREQUENCY, value: ParamValue::Bits(440.0f32.to_bits()) },
            ParamWrite { node_id: 1, hash: param_hash::DUTY_CYCLE, value: ParamValue::Bits(0.5f32.to_bits()) },
            ParamWrite { node_id: 1, hash: param_hash::WAVEFORM_TYPE, value: ParamValue::Selector(1) },
        ]
    );
}

#[test]
fn plan_refuses_missing_and_repeated_output() {
    let (mut nodes, wires) = chain();
    nodes.remove(0);
    let err = plan_engine_start(&nodes, &wires).unwrap_err();
    assert_eq!(err, "No Output node — add one to start the engine");
    let (mut nodes, wires) = chain();
    nodes.push(info(9, "Output", 1, 0, 0, vec![]));
    let err = plan_engine_start(&nodes, &wires).unwrap_err();
    assert_eq!(err, "Multiple Output nodes — keep only one");
}

#[test]
fn plan_refuses_unknown_kind() {
    let (mut nodes, wires) = chain();
    nodes.push(info(9, "Chorus", 1, 1, 0, vec![]));
    let err = plan_engine_start(&nodes, &wires).unwrap_err();
    assert_eq!(err, "Unknown engine_type \"Chorus\"");
}

#[test]
fn plan_refuses_bad_wire() {
    let (nodes, mut wires) = chain();
    wires.push(wire(3, 0, 42, 0));
    let err = plan_engine_start(&nodes, &wires).unwrap_err();
    assert_eq!(err, "Target node 42 does not exist");
    let (nodes, mut wires) = chain();
    wires.insert(0, wire(1, 1, 3, 0));
    let err = plan_engine_start(&nodes, &wires).unwrap_err();
    assert_eq!(err, "Node 1 has 1 outputs, requested idx 1");
}

#[test]
fn plan_refuses_cycle() {
    let nodes = vec![
        info(0, "Gain", 1, 1, 0, vec![]),
        info(1, "Delay", 1, 1, 0, vec![]),
        info(2, "Output", 1, 0, 0, vec![]),
    ];
    let wires = vec![wire(0, 0, 1, 0), wire(1, 0, 0, 0), wire(1, 0, 2, 0)];
    let err = plan_engine_start(&nodes, &wires).unwrap_err();
    assert_eq!(err, "Graph contains a cycle");
}

#[test]
fn build_graph_reports_first_refusal_in_node_order() {
    // The repeated id comes before the unknown kind, so it is reported.
    let nodes = vec![
        info(1, "Gain", 1, 1, 0, vec![]),
        info(1, "Gain", 1, 1, 0, vec![]),
        info(2, "Bogus", 1, 1, 0, vec![]),
    ];
    let err = build_graph(&nodes, &[], 0).unwrap_err();
    assert_eq!(err, "Node 1 already exists");
    // A node refusal comes before any wire refusal.
    let nodes = vec![info(1, "Gain", 1, 1, 0, vec![]), info(2, "Bogus", 1, 1, 0, vec![])];
    let err = build_graph(&nodes, &[wire(7, 0, 1, 0)], 0).unwrap_err();
    assert_eq!(err, "Unknown engine_type \"Bogus\"");
}

#[test]
fn build_graph_keeps_wire_order_and_output_id() {
    let (nodes, wires) = chain();
    let g = build_graph(&nodes, &wires, 77).expect("graph");
    assert_eq!(g.output_node_id, 77);
    assert_eq!(g.edges.len(), 2);
    assert_eq!(g.edges[0].from_node_id, 1);
    assert_eq!(g.edges[1].from_node_id, 3);
    assert_eq!(g.nodes[&3].node_type, NodeType::Filter);
    assert_eq!(g.nodes[&1].num_outputs, 1);
}

#[test]
fn initial_params_skip_selector_for_kinds_without_one() {
    let nodes = vec![
        info(4, "Output", 1, 0, 3, vec![ParamPair { hash: param_hash::GAIN_LEVEL, value_bits: 0 }]),
        info(6, "Reverb", 1, 1, 3, vec![]),
        info(8, "Effects", 1, 1, 3, vec![]),
    ];
    assert_eq!(
        initial_params(&nodes),
        vec![
            ParamWrite { node_id: 4, hash: param_hash::GAIN_LEVEL, value: ParamValue::Bits(0) },
            ParamWrite { node_id: 8, hash: param_hash::EFFECTS_MODE, value: ParamValue::Selector(3) },
        ]
    );
}

fn enode(id: usize, engine_type: NodeType, num_inputs: usize, num_outputs: usize) -> EditorNode {
    EditorNode { id, template_idx: 0, engine_type, num_inputs, num_outputs }
}

fn ewire(from_node: usize, to_node: usize) -> EditorWire {
    EditorWire { from_node, from_port: 0, to_node, to_port: 0 }
}

fn demo_patch() -> (Vec<EditorNode>, Vec<EditorWire>) {
    (
        vec![
            enode(0, NodeType::Oscillator, 0, 1),
            enode(1, NodeType::Filter, 1, 1),
            enode(2, NodeType::Gain, 1, 1),
            enode(3, NodeType::Output, 1, 0),
        ],
        vec![ewire(0, 1), ewire(1, 2), ewire(2, 3)],
    )
}

#[test]
fn editor_plan_for_the_demo_patch() {
    let (nodes, wires) = demo_patch();
    let plan = plan_editor_start(&nodes, &wires).expect("plan");
    assert_eq!(plan.output_id, 3);
    assert_eq!(plan.graph.output_node_id, 3);
    assert_eq!(plan.order, vec![0, 1, 2, 3]);
    assert_eq!(plan.nodes.len(), 4);
    assert_eq!(plan.nodes[3].node_type, NodeType::Output);
    assert_eq!(plan.connections.len(), 3);
    assert_eq!(plan.connections[2].to_node_id, 3);
}

#[test]
fn editor_plan_refusals_name_their_stage() {
    assert_eq!(plan_editor_start(&[], &[]).unwrap_err(), "Add some nodes first!");
    let (mut nodes, wires) = demo_patch();
    nodes.push(enode(2, NodeType::Delay, 1, 1));
    assert_eq!(plan_editor_start(&nodes, &wires).unwrap_err(), "Graph error: Node 2 already exists");
    let (nodes, mut wires) = demo_patch();
    wires.push(ewire(3, 0));
    assert_eq!(
        plan_editor_start(&nodes, &wires).unwrap_err(),
        "Edge error: Node 3 has 0 outputs, requested idx 0"
    );
    let (nodes, mut wires) = demo_patch();
    wires.push(ewire(2, 1));
    assert_eq!(
        plan_editor_start(&nodes, &wires).unwrap_err(),
        "Validation error: Graph contains a cycle"
    );
}

#[test]
fn editor_output_is_first_output_node_or_zero() {
    let nodes = vec![enode(9, NodeType::Gain, 1, 1), enode(7, NodeType::Output, 1, 0), enode(4, NodeType::Output, 1, 0)];
    assert_eq!(editor_output_id(&nodes), 7);
    let (nodes, wires) = demo_patch();
    let without: Vec<EditorNode> = nodes.into_iter().filter(|n| n.engine_type != NodeType::Output).collect();
    let wires: Vec<EditorWire> = wires.into_iter().filter(|w| w.to_node != 3).collect();
    let plan = plan_editor_start(&without, &wires).expect("plan");
    assert_eq!(plan.output_id, 0);
    assert_eq!(plan.order, vec![0, 1, 2]);
}

#[test]
fn finish_wire_replaces_wire_into_same_input() {
    let mut wires = vec![ewire(0, 1), ewire(1, 2), EditorWire { from_node: 5, from_port: 0, to_node: 2, to_port: 1 }];
    assert!(finish_wire(&mut wires, EditorWire { from_node: 7, from_port: 1, to_node: 2, to_port: 0 }));
    assert_eq!(
        wires,
        vec![
            ewire(0, 1),
            EditorWire { from_node: 5, from_port: 0, to_node: 2, to_port: 1 },
            EditorWire { from_node: 7, from_port: 1, to_node: 2, to_port: 0 },
        ]
    );
    // A wire from a node to itself is refused.
    assert!(!finish_wire(&mut wires, EditorWire { from_node: 3, from_port: 0, to_node: 3, to_port: 0 }));
    assert_eq!(wires.len(), 3);
}

#[test]
fn editor_remove_node_drops_its_wires() {
    let (mut nodes, mut wires) = demo_patch();
    editor_remove_node(&mut nodes, &mut wires, 1);
    assert_eq!(nodes.iter().map(|n| n.id).collect::<Vec<_>>(), vec![0, 2, 3]);
    assert_eq!(wires, vec![ewire(2, 3)]);
    editor_remove_node(&mut nodes, &mut wires, 42);
    assert_eq!(nodes.len(), 3);
    assert_eq!(wires.len(), 1);
}

#[test]
fn editor_plan_needs_an_output_node_that_exists() {
    // No Output node: the output is taken to be node 0, which is absent here.
    let nodes = vec![enode(4, NodeType::Oscillator, 0, 1), enode(5, NodeType::Gain, 1, 1)];
    assert_eq!(
        plan_editor_start(&nodes, &[ewire(4, 5)]).unwrap_err(),
        "Validation error: Output node 0 does not exist"
    );
}
