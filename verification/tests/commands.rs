use joduga::commands::{
    accepts_param_for,
    mode_param_hash, parse_engine_type, resolve_output_node_id, EngineEdgeInfo, EngineNodeInfo,
    ParamPair,
};
use joduga::ffi::NodeType;
use joduga::param_hash;

#[test]
fn parse_engine_type_known_strings() {
    assert!(matches!(parse_engine_type("Oscillator"), Ok(NodeType::Oscillator)));
    assert!(matches!(parse_engine_type("Filter"), Ok(NodeType::Filter)));
    assert!(matches!(parse_engine_type("Gain"), Ok(NodeType::Gain)));
    assert!(matches!(parse_engine_type("Output"), Ok(NodeType::Output)));
    assert!(matches!(parse_engine_type("Delay"), Ok(NodeType::Delay)));
    assert!(matches!(parse_engine_type("Effects"), Ok(NodeType::Effects)));
    assert!(matches!(parse_engine_type("Reverb"), Ok(NodeType::Reverb)));
}

#[test]
fn parse_engine_type_rejects_unknown() {
    // Unknown names are refused rather than coerced to some node type.
    let err = parse_engine_type("NotARealType").expect_err("must not coerce");
    assert!(err.contains("NotARealType"), "unexpected error: {err}");
    assert!(parse_engine_type("").is_err());
    // Case-sensitive — "oscillator" is not "Oscillator"
    assert!(parse_engine_type("oscillator").is_err());
}

fn n(id: u32, engine_type: &str) -> EngineNodeInfo {
    EngineNodeInfo {
        id,
        engine_type: engine_type.into(),
        num_inputs: 0,
        num_outputs: 0,
        engine_subtype: 0,
        params: vec![],
    }
}

#[test]
fn resolve_output_picks_unique_output_node() {
    let nodes = vec![n(0, "Oscillator"), n(7, "Output")];
    assert_eq!(resolve_output_node_id(&nodes).unwrap(), 7);
}

#[test]
fn resolve_output_errors_when_missing() {
    let nodes = vec![n(0, "Oscillator"), n(1, "Filter")];
    let err = resolve_output_node_id(&nodes).unwrap_err();
    assert!(err.contains("No Output node"), "unexpected error: {err}");
}

#[test]
fn resolve_output_errors_on_duplicate_outputs() {
    let nodes = vec![n(0, "Output"), n(1, "Output")];
    let err = resolve_output_node_id(&nodes).unwrap_err();
    assert!(err.contains("Multiple Output"), "unexpected error: {err}");
}

#[test]
fn exact_messages_of_command_refusals() {
    assert_eq!(parse_engine_type("Chorus").unwrap_err(), "Unknown engine_type \"Chorus\"");
    assert_eq!(
        resolve_output_node_id(&[]).unwrap_err(),
        "No Output node — add one to start the engine"
    );
    let three = vec![n(1, "Output"), n(2, "Gain"), n(3, "Output"), n(4, "Output")];
    assert_eq!(
        resolve_output_node_id(&three).unwrap_err(),
        "Multiple Output nodes — keep only one"
    );
    // "output" is not "Output".
    assert!(resolve_output_node_id(&[n(9, "output")]).is_err());
}

#[test]
fn mode_selector_per_kind() {
    assert_eq!(mode_param_hash("Oscillator"), Some(param_hash::WAVEFORM_TYPE));
    assert_eq!(mode_param_hash("Filter"), Some(param_hash::FILTER_MODE));
    assert_eq!(mode_param_hash("Gain"), Some(param_hash::GAIN_MODE));
    assert_eq!(mode_param_hash("Delay"), Some(param_hash::DELAY_MODE));
    assert_eq!(mode_param_hash("Effects"), Some(param_hash::EFFECTS_MODE));
    assert_eq!(mode_param_hash("Output"), None);
    assert_eq!(mode_param_hash("Reverb"), None);
}

#[test]
fn front_end_records_hold_plain_values() {
    let p = ParamPair { hash: param_hash::FREQ, value_bits: 440.0f32.to_bits() };
    assert_eq!(f32::from_bits(p.value_bits), 440.0);
    let e = EngineEdgeInfo { from_node: 1, from_port: 0, to_node: 2, to_port: 3 };
    assert_eq!(e.to_port, 3);
}

#[test]
fn parameter_changes_only_for_running_nodes() {
    assert!(accepts_param_for(&[3, 7, 9], 7));
    assert!(!accepts_param_for(&[3, 7, 9], 8));
    assert!(!accepts_param_for(&[], 0));
}
