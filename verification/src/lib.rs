//! Joduga audio middleware: graph validation and scheduling, lock-free
//! command queues, MIDI message decoding, and the decisions behind the
//! front end's engine commands.

pub mod catalog;
pub mod commands;
pub mod editor;
pub mod ffi;
pub mod frames;
pub mod graph_spec;
pub mod lockfree_queue;
pub mod midi_input;
pub mod param_hash;
pub mod plan;
pub mod shadow_graph;
pub mod sort_laws;
pub mod sorting;
pub mod text;
pub mod topo_spec;
