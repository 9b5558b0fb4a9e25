use joduga::catalog::{catalog, template_position, ParamDef, Rgba};
use joduga::editor::{default_patch, editor_add_node, editor_node_by_id};
use joduga::ffi::NodeType;
use joduga::param_hash;
use joduga::plan::{plan_editor_start, EditorNode, EditorWire};

#[test]
fn catalog_lists_every_template_in_order() {
    let c = catalog();
    assert_eq!(c.len(), 66);
    let first = &c[0];
    assert_eq!(first.name, "Sine Oscillator");
    assert_eq!(first.category, "Oscillators");
    assert_eq!(first.color, Rgba { r: 255, g: 183, b: 77, a: 255 });
    assert_eq!((first.num_inputs, first.num_outputs), (0, 1));
    assert_eq!(first.engine_type, NodeType::Oscillator);
    assert_eq!(
        first.params,
        vec![ParamDef {
            name: "Frequency",
            hash: param_hash::FREQ,
            min_bits: 20.0f32.to_bits(),
            max_bits: 20000.0f32.to_bits(),
            default_bits: 440.0f32.to_bits(),
            log: true,
            suffix: "Hz",
        }]
    );
    let duty = c[1].params[1];
    assert_eq!(duty.name, "Duty Cycle");
    assert_eq!(duty.hash, param_hash::DUTY_CYCLE);
    assert_eq!(f32::from_bits(duty.min_bits), 0.01);
    assert_eq!(f32::from_bits(duty.max_bits), 0.99);
    assert_eq!(f32::from_bits(duty.default_bits), 0.5);
    assert!(!duty.log);
    let last = c.last().unwrap();
    assert_eq!(last.name, "Speaker Output");
    assert_eq!(last.engine_type, NodeType::Output);
    assert_eq!((last.num_inputs, last.num_outputs), (1, 0));
    assert!(last.params.is_empty());
}

#[test]
fn catalog_positions_of_the_opening_patch() {
    let c = catalog();
    assert_eq!(template_position(&c, "Low-Pass Filter"), Some(14));
    assert_eq!(template_position(&c, "Gain"), Some(32));
    assert_eq!(template_position(&c, "Speaker Output"), Some(65));
    assert_eq!(template_position(&c, "No Such Node"), None);
    assert_eq!(c[14].engine_type, NodeType::Filter);
    assert_eq!(f32::from_bits(c[14].params[0].default_bits), 5000.0);
}

#[test]
fn default_patch_is_a_four_node_chain() {
    let (nodes, wires, next_id) = default_patch();
    assert_eq!(next_id, 4);
    let kinds: Vec<(usize, usize, NodeType)> = nodes.iter().map(|n| (n.id, n.template_idx, n.engine_type)).collect();
    assert_eq!(
        kinds,
        vec![
            (0, 0, NodeType::Oscillator),
            (1, 14, NodeType::Filter),
            (2, 32, NodeType::Gain),
            (3, 65, NodeType::Output),
        ]
    );
    assert_eq!(wires.len(), 3);
    assert_eq!(wires[2], EditorWire { from_node: 2, from_port: 0, to_node: 3, to_port: 0 });
    let plan = plan_editor_start(&nodes, &wires).expect("plan");
    assert_eq!(plan.output_id, 3);
    assert_eq!(plan.order, vec![0, 1, 2, 3]);
}

#[test]
fn placing_nodes_allocates_fresh_ids() {
    let c = catalog();
    let (mut nodes, _, mut next_id) = default_patch();
    editor_add_node(&mut nodes, &mut next_id, &c, 1);
    editor_add_node(&mut nodes, &mut next_id, &c, 65);
    assert_eq!(next_id, 6);
    assert_eq!(
        nodes[4],
        EditorNode { id: 4, template_idx: 1, engine_type: NodeType::Oscillator, num_inputs: 0, num_outputs: 1 }
    );
    assert_eq!(nodes[5].id, 5);
    assert_eq!(nodes[5].engine_type, NodeType::Output);
    assert_eq!(editor_node_by_id(&nodes, 5), Some(5));
    assert_eq!(editor_node_by_id(&nodes, 2), Some(2));
    assert_eq!(editor_node_by_id(&nodes, 17), None);
}
