use vstd::prelude::*;

verus! {

/// Kind of processing node; the discriminants (0, 1, 2, ...) are the codes
/// the DSP engine uses.
#[derive(Debug, Clone, Copy, PartialEq, Eq, Hash)]
pub enum NodeType {
    Oscillator,
    Filter,
    Gain,
    Output,
    Delay,
    Effects,
    Reverb,
}

/// A node as handed to the DSP engine.
#[derive(Debug, Clone, Copy, PartialEq, Eq)]
pub struct NodeDesc {
    pub node_id: u32,
    pub node_type: NodeType,
    pub num_inputs: u32,
    pub num_outputs: u32,
}

/// A connection from an output port of one node to an input port of another.
#[derive(Debug, Clone, Copy, PartialEq, Eq)]
pub struct NodeConnection {
    pub from_node_id: u32,
    pub from_output_idx: u32,
    pub to_node_id: u32,
    pub to_input_idx: u32,
}

/// Start-up parameters of the DSP engine.
#[derive(Debug, Clone, Copy, PartialEq, Eq)]
pub struct AudioEngineConfig {
    pub sample_rate: u32,
    pub block_size: u32,
    pub cpu_core: u32,
}

/// Opaque handle of a running DSP engine instance.
pub struct AudioEngine {
    _private: (),
}

} // verus!
