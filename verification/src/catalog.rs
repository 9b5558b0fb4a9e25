//! The node catalog of the graph editor: every node template the user can
//! place, with its category, icon, colour, ports, engine kind and the
//! parameters it shows. Parameter bounds and defaults are IEEE-754 `f32`
//! bit patterns.

use vstd::prelude::*;
use crate::commands::same_text;
use crate::ffi::NodeType;

verus! {

/// A parameter a template shows: its name, key, range (bit patterns of the
/// `f32` bounds), default (bit pattern), whether its control is
/// logarithmic, and the unit shown after the value.
#[derive(Debug, Clone, Copy, PartialEq, Eq)]
pub struct ParamDef {
    pub name: &'static str,
    pub hash: u32,
    pub min_bits: u32,
    pub max_bits: u32,
    pub default_bits: u32,
    pub log: bool,
    pub suffix: &'static str,
}

/// An RGB colour with its alpha channel.
#[derive(Debug, Clone, Copy, PartialEq, Eq)]
pub struct Rgba {
    pub r: u8,
    pub g: u8,
    pub b: u8,
    pub a: u8,
}

/// A node the editor can place.
#[derive(Debug, Clone)]
pub struct NodeTemplate {
    pub name: &'static str,
    pub category: &'static str,
    pub icon: &'static str,
    pub color: Rgba,
    pub num_inputs: usize,
    pub num_outputs: usize,
    pub engine_type: NodeType,
    pub params: Vec<ParamDef>,
}

/// A parameter as plain values: name, key, minimum, maximum and default
/// bits, logarithmic control, unit.
pub type ParamRow = (Seq<char>, u32, u32, u32, u32, bool, Seq<char>);

/// A template as plain values: name, category, icon, colour (red, green,
/// blue, alpha), inputs, outputs, engine kind, parameters.
pub type TemplateRow = (
    Seq<char>,
    Seq<char>,
    Seq<char>,
    (u8, u8, u8, u8),
    usize,
    usize,
    NodeType,
    Seq<ParamRow>,
);

pub open spec fn param_row(p: ParamDef) -> ParamRow {
    (p.name@, p.hash, p.min_bits, p.max_bits, p.default_bits, p.log, p.suffix@)
}

pub open spec fn template_row(t: NodeTemplate) -> TemplateRow {
    (
        t.name@,
        t.category@,
        t.icon@,
        (t.color.r, t.color.g, t.color.b, t.color.a),
        t.num_inputs,
        t.num_outputs,
        t.engine_type,
        t.params@.map_values(|p: ParamDef| param_row(p)),
    )
}

/// The templates of `cat` as plain values.
pub open spec fn rows_of(cat: Seq<NodeTemplate>) -> Seq<TemplateRow> {
    cat.map_values(|t: NodeTemplate| template_row(t))
}

/// The catalog, template by template, in the order the editor lists it.
pub open spec fn catalog_table() -> Seq<TemplateRow> {
    seq![
        ("Sine Oscillator"@, "Oscillators"@, "🎵"@, (255u8, 183u8, 77u8, 255u8), 0usize, 1usize, NodeType::Oscillator, seq![("Frequency"@, 0x811C_9DC5u32, 0x41A0_0000u32, 0x469C_4000u32, 0x43DC_0000u32, true, "Hz"@)]),
        ("Square Wave"@, "Oscillators"@, "⬜"@, (255u8, 183u8, 77u8, 255u8), 0usize, 1usize, NodeType::Oscillator, seq![("Frequency"@, 0x811C_9DC5u32, 0x41A0_0000u32, 0x469C_4000u32, 0x43DC_0000u32, true, "Hz"@), ("Duty Cycle"@, 0x0000_00A1u32, 0x3C23_D70Au32, 0x3F7D_70A4u32, 0x3F00_0000u32, false, ""@)]),
        ("Sawtooth Wave"@, "Oscillators"@, "📐"@, (255u8, 183u8, 77u8, 255u8), 0usize, 1usize, NodeType::Oscillator, seq![("Frequency"@, 0x811C_9DC5u32, 0x41A0_0000u32, 0x469C_4000u32, 0x43DC_0000u32, true, "Hz"@)]),
        ("Triangle Wave"@, "Oscillators"@, "🔺"@, (255u8, 183u8, 77u8, 255u8), 0usize, 1usize, NodeType::Oscillator, seq![("Frequency"@, 0x811C_9DC5u32, 0x41A0_0000u32, 0x469C_4000u32, 0x43DC_0000u32, true, "Hz"@)]),
        ("Pulse Wave"@, "Oscillators"@, "⚡"@, (255u8, 183u8, 77u8, 255u8), 0usize, 1usize, NodeType::Oscillator, seq![("Frequency"@, 0x811C_9DC5u32, 0x41A0_0000u32, 0x469C_4000u32, 0x43DC_0000u32, true, "Hz"@), ("Width"@, 0x0000_00A2u32, 0x3C23_D70Au32, 0x3F7D_70A4u32, 0x3F00_0000u32, false, ""@)]),
        ("White Noise"@, "Oscillators"@, "🌫"@, (255u8, 183u8, 77u8, 255u8), 0usize, 1usize, NodeType::Oscillator, seq![("Amplitude"@, 0x811C_9DC5u32, 0x0000_0000u32, 0x3F80_0000u32, 0x3F00_0000u32, false, ""@)]),
        ("Pink Noise"@, "Oscillators"@, "🩷"@, (255u8, 183u8, 77u8, 255u8), 0usize, 1usize, NodeType::Oscillator, seq![("Amplitude"@, 0x811C_9DC5u32, 0x0000_0000u32, 0x3F80_0000u32, 0x3F00_0000u32, false, ""@)]),
        ("Brown Noise"@, "Oscillators"@, "🟤"@, (255u8, 183u8, 77u8, 255u8), 0usize, 1usize, NodeType::Oscillator, seq![("Amplitude"@, 0x811C_9DC5u32, 0x0000_0000u32, 0x3F80_0000u32, 0x3F00_0000u32, false, ""@)]),
        ("FM Oscillator"@, "Oscillators"@, "📻"@, (255u8, 183u8, 77u8, 255u8), 0usize, 1usize, NodeType::Oscillator, seq![("Carrier"@, 0x811C_9DC5u32, 0x41A0_0000u32, 0x469C_4000u32, 0x43DC_0000u32, true, "Hz"@), ("Mod Depth"@, 0x0000_00A3u32, 0x0000_0000u32, 0x4120_0000u32, 0x3F80_0000u32, false, ""@), ("Mod Freq"@, 0x0000_00A4u32, 0x3DCC_CCCDu32, 0x447A_0000u32, 0x40A0_0000u32, true, "Hz"@)]),
        ("AM Oscillator"@, "Oscillators"@, "📡"@, (255u8, 183u8, 77u8, 255u8), 0usize, 1usize, NodeType::Oscillator, seq![("Carrier"@, 0x811C_9DC5u32, 0x41A0_0000u32, 0x469C_4000u32, 0x43DC_0000u32, true, "Hz"@), ("Mod Depth"@, 0x0000_00A5u32, 0x0000_0000u32, 0x3F80_0000u32, 0x3F00_0000u32, false, ""@), ("Mod Freq"@, 0x0000_00A6u32, 0x3DCC_CCCDu32, 0x42C8_0000u32, 0x40A0_0000u32, true, "Hz"@)]),
        ("Wavetable"@, "Oscillators"@, "🌊"@, (255u8, 183u8, 77u8, 255u8), 0usize, 1usize, NodeType::Oscillator, seq![("Frequency"@, 0x811C_9DC5u32, 0x41A0_0000u32, 0x469C_4000u32, 0x43DC_0000u32, true, "Hz"@), ("Position"@, 0x0000_00A7u32, 0x0000_0000u32, 0x3F80_0000u32, 0x0000_0000u32, false, ""@)]),
        ("Sub Oscillator"@, "Oscillators"@, "🔉"@, (255u8, 183u8, 77u8, 255u8), 0usize, 1usize, NodeType::Oscillator, seq![("Frequency"@, 0x811C_9DC5u32, 0x41A0_0000u32, 0x469C_4000u32, 0x42DC_0000u32, true, "Hz"@), ("Octave"@, 0x0000_00A8u32, 0xC040_0000u32, 0x0000_0000u32, 0xBF80_0000u32, false, ""@)]),
        ("Super Saw"@, "Oscillators"@, "🪚"@, (255u8, 183u8, 77u8, 255u8), 0usize, 1usize, NodeType::Oscillator, seq![("Frequency"@, 0x811C_9DC5u32, 0x41A0_0000u32, 0x469C_4000u32, 0x43DC_0000u32, true, "Hz"@), ("Detune"@, 0x0000_00A9u32, 0x0000_0000u32, 0x3F80_0000u32, 0x3E99_999Au32, false, ""@), ("Voices"@, 0x0000_00AAu32, 0x3F80_0000u32, 0x40E0_0000u32, 0x40A0_0000u32, false, ""@)]),
        ("Additive Synth"@, "Oscillators"@, "➕"@, (255u8, 183u8, 77u8, 255u8), 0usize, 1usize, NodeType::Oscillator, seq![("Fundamental"@, 0x811C_9DC5u32, 0x41A0_0000u32, 0x459C_4000u32, 0x435C_0000u32, true, "Hz"@), ("Harmonics"@, 0x0000_00ABu32, 0x3F80_0000u32, 0x4200_0000u32, 0x4100_0000u32, false, ""@), ("Rolloff"@, 0x0000_00ACu32, 0x3DCC_CCCDu32, 0x4000_0000u32, 0x3F80_0000u32, false, ""@)]),
        ("Low-Pass Filter"@, "Filters"@, "⬇"@, (129u8, 199u8, 132u8, 255u8), 1usize, 1usize, NodeType::Filter, seq![("Cutoff"@, 0x811C_9DC5u32, 0x41A0_0000u32, 0x469C_4000u32, 0x459C_4000u32, true, "Hz"@), ("Resonance"@, 0x050C_5D2Eu32, 0x3DCC_CCCDu32, 0x4140_0000u32, 0x3F34_FDF4u32, false, ""@)]),
        ("High-Pass Filter"@, "Filters"@, "⬆"@, (129u8, 199u8, 132u8, 255u8), 1usize, 1usize, NodeType::Filter, seq![("Cutoff"@, 0x811C_9DC5u32, 0x41A0_0000u32, 0x469C_4000u32, 0x4348_0000u32, true, "Hz"@), ("Resonance"@, 0x050C_5D2Eu32, 0x3DCC_CCCDu32, 0x4140_0000u32, 0x3F34_FDF4u32, false, ""@)]),
        ("Band-Pass Filter"@, "Filters"@, "↔"@, (129u8, 199u8, 132u8, 255u8), 1usize, 1usize, NodeType::Filter, seq![("Center"@, 0x811C_9DC5u32, 0x41A0_0000u32, 0x469C_4000u32, 0x447A_0000u32, true, "Hz"@), ("Bandwidth"@, 0x050C_5D2Eu32, 0x3DCC_CCCDu32, 0x4140_0000u32, 0x3F80_0000u32, false, ""@)]),
        ("Notch Filter"@, "Filters"@, "🚫"@, (129u8, 199u8, 132u8, 255u8), 1usize, 1usize, NodeType::Filter, seq![("Center"@, 0x811C_9DC5u32, 0x41A0_0000u32, 0x469C_4000u32, 0x447A_0000u32, true, "Hz"@), ("Width"@, 0x050C_5D2Eu32, 0x3DCC_CCCDu32, 0x4140_0000u32, 0x3F80_0000u32, false, ""@)]),
        ("All-Pass Filter"@, "Filters"@, "🔄"@, (129u8, 199u8, 132u8, 255u8), 1usize, 1usize, NodeType::Filter, seq![("Cutoff"@, 0x811C_9DC5u32, 0x41A0_0000u32, 0x469C_4000u32, 0x447A_0000u32, true, "Hz"@)]),
        ("Comb Filter"@, "Filters"@, "🪮"@, (129u8, 199u8, 132u8, 255u8), 1usize, 1usize, NodeType::Filter, seq![("Delay"@, 0x0000_00B1u32, 0x3DCC_CCCDu32, 0x4248_0000u32, 0x40A0_0000u32, false, "ms"@), ("Feedback"@, 0x0000_00B2u32, 0x0000_0000u32, 0x3F7D_70A4u32, 0x3F33_3333u32, false, ""@)]),
        ("Formant Filter"@, "Filters"@, "🗣"@, (129u8, 199u8, 132u8, 255u8), 1usize, 1usize, NodeType::Filter, seq![("Vowel"@, 0x0000_00B3u32, 0x0000_0000u32, 0x4080_0000u32, 0x0000_0000u32, false, ""@), ("Shift"@, 0x0000_00B4u32, 0xC140_0000u32, 0x4140_0000u32, 0x0000_0000u32, false, "st"@)]),
        ("Moog Ladder"@, "Filters"@, "🎛"@, (129u8, 199u8, 132u8, 255u8), 1usize, 1usize, NodeType::Filter, seq![("Cutoff"@, 0x811C_9DC5u32, 0x41A0_0000u32, 0x469C_4000u32, 0x44FA_0000u32, true, "Hz"@), ("Resonance"@, 0x050C_5D2Eu32, 0x0000_0000u32, 0x4080_0000u32, 0x3F80_0000u32, false, ""@), ("Drive"@, 0x0000_00B5u32, 0x0000_0000u32, 0x40A0_0000u32, 0x0000_0000u32, false, ""@)]),
        ("State Variable"@, "Filters"@, "🔀"@, (129u8, 199u8, 132u8, 255u8), 1usize, 1usize, NodeType::Filter, seq![("Cutoff"@, 0x811C_9DC5u32, 0x41A0_0000u32, 0x469C_4000u32, 0x453B_8000u32, true, "Hz"@), ("Resonance"@, 0x050C_5D2Eu32, 0x3DCC_CCCDu32, 0x4120_0000u32, 0x3F34_FDF4u32, false, ""@), ("Mix LP/HP"@, 0x0000_00B6u32, 0x0000_0000u32, 0x3F80_0000u32, 0x0000_0000u32, false, ""@)]),
        ("Parametric EQ"@, "Filters"@, "📊"@, (129u8, 199u8, 132u8, 255u8), 1usize, 1usize, NodeType::Filter, seq![("Frequency"@, 0x811C_9DC5u32, 0x41A0_0000u32, 0x469C_4000u32, 0x447A_0000u32, true, "Hz"@), ("Gain dB"@, 0x050C_5D2Eu32, 0xC190_0000u32, 0x4190_0000u32, 0x0000_0000u32, false, "dB"@), ("Q"@, 0x0000_00B7u32, 0x3DCC_CCCDu32, 0x41A0_0000u32, 0x3F80_0000u32, false, ""@)]),
        ("Low Shelf EQ"@, "Filters"@, "📉"@, (129u8, 199u8, 132u8, 255u8), 1usize, 1usize, NodeType::Filter, seq![("Frequency"@, 0x811C_9DC5u32, 0x41A0_0000u32, 0x459C_4000u32, 0x4348_0000u32, true, "Hz"@), ("Gain dB"@, 0x050C_5D2Eu32, 0xC190_0000u32, 0x4190_0000u32, 0x0000_0000u32, false, "dB"@)]),
        ("High Shelf EQ"@, "Filters"@, "📈"@, (129u8, 199u8, 132u8, 255u8), 1usize, 1usize, NodeType::Filter, seq![("Frequency"@, 0x811C_9DC5u32, 0x447A_0000u32, 0x469C_4000u32, 0x45FA_0000u32, true, "Hz"@), ("Gain dB"@, 0x050C_5D2Eu32, 0xC190_0000u32, 0x4190_0000u32, 0x0000_0000u32, false, "dB"@)]),
        ("Tilt EQ"@, "Filters"@, "↗"@, (129u8, 199u8, 132u8, 255u8), 1usize, 1usize, NodeType::Filter, seq![("Tilt dB"@, 0x811C_9DC5u32, 0xC0C0_0000u32, 0x40C0_0000u32, 0x0000_0000u32, false, "dB"@), ("Center"@, 0x050C_5D2Eu32, 0x4348_0000u32, 0x459C_4000u32, 0x447A_0000u32, true, "Hz"@)]),
        ("DC Blocker"@, "Filters"@, "🚿"@, (129u8, 199u8, 132u8, 255u8), 1usize, 1usize, NodeType::Filter, seq![("Cutoff"@, 0x811C_9DC5u32, 0x40A0_0000u32, 0x42A0_0000u32, 0x41A0_0000u32, false, "Hz"@)]),
        ("Moving Average"@, "Filters"@, "📏"@, (129u8, 199u8, 132u8, 255u8), 1usize, 1usize, NodeType::Filter, seq![("Window"@, 0x0000_00B8u32, 0x3F80_0000u32, 0x4300_0000u32, 0x4100_0000u32, false, "samp"@)]),
        ("Crossover"@, "Filters"@, "✂"@, (129u8, 199u8, 132u8, 255u8), 1usize, 2usize, NodeType::Filter, seq![("Frequency"@, 0x811C_9DC5u32, 0x42C8_0000u32, 0x461C_4000u32, 0x447A_0000u32, true, "Hz"@), ("Order"@, 0x0000_00B9u32, 0x3F80_0000u32, 0x4080_0000u32, 0x4000_0000u32, false, ""@)]),
        ("Resonator"@, "Filters"@, "🔔"@, (129u8, 199u8, 132u8, 255u8), 1usize, 1usize, NodeType::Filter, seq![("Frequency"@, 0x811C_9DC5u32, 0x4248_0000u32, 0x461C_4000u32, 0x43FA_0000u32, true, "Hz"@), ("Decay"@, 0x050C_5D2Eu32, 0x3C23_D70Au32, 0x40A0_0000u32, 0x3F00_0000u32, true, "s"@)]),
        ("Vowel Filter"@, "Filters"@, "🅰"@, (129u8, 199u8, 132u8, 255u8), 1usize, 1usize, NodeType::Filter, seq![("Vowel"@, 0x0000_00BAu32, 0x0000_0000u32, 0x4080_0000u32, 0x0000_0000u32, false, ""@), ("Q"@, 0x050C_5D2Eu32, 0x3F00_0000u32, 0x4120_0000u32, 0x4000_0000u32, false, ""@)]),
        ("Gain"@, "Dynamics"@, "🔊"@, (100u8, 181u8, 246u8, 255u8), 1usize, 1usize, NodeType::Gain, seq![("Level"@, 0x811C_9DC5u32, 0x0000_0000u32, 0x4000_0000u32, 0x3F80_0000u32, false, ""@)]),
        ("Attenuator"@, "Dynamics"@, "🔉"@, (100u8, 181u8, 246u8, 255u8), 1usize, 1usize, NodeType::Gain, seq![("Amount"@, 0x811C_9DC5u32, 0x0000_0000u32, 0x3F80_0000u32, 0x3F00_0000u32, false, ""@)]),
        ("VCA"@, "Dynamics"@, "🎚"@, (100u8, 181u8, 246u8, 255u8), 1usize, 1usize, NodeType::Gain, seq![("Level"@, 0x811C_9DC5u32, 0x0000_0000u32, 0x4000_0000u32, 0x3F80_0000u32, false, ""@)]),
        ("Compressor"@, "Dynamics"@, "🗜"@, (100u8, 181u8, 246u8, 255u8), 1usize, 1usize, NodeType::Gain, seq![("Threshold"@, 0x811C_9DC5u32, 0xC270_0000u32, 0x0000_0000u32, 0xC1A0_0000u32, false, "dB"@), ("Ratio"@, 0x0000_00C1u32, 0x3F80_0000u32, 0x41A0_0000u32, 0x4080_0000u32, false, ":1"@), ("Attack"@, 0x0000_00C2u32, 0x3DCC_CCCDu32, 0x42C8_0000u32, 0x4120_0000u32, true, "ms"@), ("Release"@, 0x0000_00C3u32, 0x4120_0000u32, 0x447A_0000u32, 0x42C8_0000u32, true, "ms"@)]),
        ("Limiter"@, "Dynamics"@, "🛑"@, (100u8, 181u8, 246u8, 255u8), 1usize, 1usize, NodeType::Gain, seq![("Threshold"@, 0x811C_9DC5u32, 0xC1A0_0000u32, 0x0000_0000u32, 0xC040_0000u32, false, "dB"@), ("Release"@, 0x0000_00C4u32, 0x4120_0000u32, 0x43FA_0000u32, 0x4248_0000u32, true, "ms"@)]),
        ("Gate"@, "Dynamics"@, "🚧"@, (100u8, 181u8, 246u8, 255u8), 1usize, 1usize, NodeType::Gain, seq![("Threshold"@, 0x811C_9DC5u32, 0xC2A0_0000u32, 0x0000_0000u32, 0xC220_0000u32, false, "dB"@), ("Attack"@, 0x0000_00C5u32, 0x3DCC_CCCDu32, 0x4248_0000u32, 0x3F80_0000u32, true, "ms"@), ("Release"@, 0x0000_00C6u32, 0x4120_0000u32, 0x43FA_0000u32, 0x4248_0000u32, true, "ms"@)]),
        ("Expander"@, "Dynamics"@, "↕"@, (100u8, 181u8, 246u8, 255u8), 1usize, 1usize, NodeType::Gain, seq![("Threshold"@, 0x811C_9DC5u32, 0xC270_0000u32, 0x0000_0000u32, 0xC1F0_0000u32, false, "dB"@), ("Ratio"@, 0x0000_00C7u32, 0x3F80_0000u32, 0x4120_0000u32, 0x4000_0000u32, false, ":1"@)]),
        ("Delay"@, "Effects"@, "⏱"@, (186u8, 104u8, 200u8, 255u8), 1usize, 1usize, NodeType::Filter, seq![("Time"@, 0x0000_00D1u32, 0x3F80_0000u32, 0x44FA_0000u32, 0x437A_0000u32, true, "ms"@), ("Feedback"@, 0x0000_00D2u32, 0x0000_0000u32, 0x3F7D_70A4u32, 0x3F00_0000u32, false, ""@), ("Mix"@, 0x0000_00D3u32, 0x0000_0000u32, 0x3F80_0000u32, 0x3F00_0000u32, false, ""@)]),
        ("Reverb"@, "Effects"@, "🏛"@, (186u8, 104u8, 200u8, 255u8), 1usize, 1usize, NodeType::Filter, seq![("Size"@, 0x0000_00D4u32, 0x0000_0000u32, 0x3F80_0000u32, 0x3F19_999Au32, false, ""@), ("Damping"@, 0x0000_00D5u32, 0x0000_0000u32, 0x3F80_0000u32, 0x3F00_0000u32, false, ""@), ("Mix"@, 0x0000_00D6u32, 0x0000_0000u32, 0x3F80_0000u32, 0x3E99_999Au32, false, ""@)]),
        ("Chorus"@, "Effects"@, "🎭"@, (186u8, 104u8, 200u8, 255u8), 1usize, 1usize, NodeType::Filter, seq![("Rate"@, 0x0000_00D7u32, 0x3DCC_CCCDu32, 0x4120_0000u32, 0x3F80_0000u32, false, "Hz"@), ("Depth"@, 0x0000_00D8u32, 0x0000_0000u32, 0x3F80_0000u32, 0x3F00_0000u32, false, ""@), ("Mix"@, 0x0000_00D9u32, 0x0000_0000u32, 0x3F80_0000u32, 0x3F00_0000u32, false, ""@)]),
        ("Flanger"@, "Effects"@, "✈"@, (186u8, 104u8, 200u8, 255u8), 1usize, 1usize, NodeType::Filter, seq![("Rate"@, 0x0000_00DAu32, 0x3D4C_CCCDu32, 0x40A0_0000u32, 0x3F00_0000u32, false, "Hz"@), ("Depth"@, 0x0000_00DBu32, 0x0000_0000u32, 0x3F80_0000u32, 0x3F33_3333u32, false, ""@), ("Feedback"@, 0x0000_00DCu32, 0x0000_0000u32, 0x3F7D_70A4u32, 0x3F33_3333u32, false, ""@)]),
        ("Phaser"@, "Effects"@, "🌀"@, (186u8, 104u8, 200u8, 255u8), 1usize, 1usize, NodeType::Filter, seq![("Rate"@, 0x0000_00DDu32, 0x3D4C_CCCDu32, 0x40A0_0000u32, 0x3E99_999Au32, false, "Hz"@), ("Depth"@, 0x0000_00DEu32, 0x0000_0000u32, 0x3F80_0000u32, 0x3F19_999Au32, false, ""@), ("Stages"@, 0x0000_00DFu32, 0x4000_0000u32, 0x4140_0000u32, 0x4080_0000u32, false, ""@)]),
        ("Distortion"@, "Effects"@, "🔥"@, (186u8, 104u8, 200u8, 255u8), 1usize, 1usize, NodeType::Gain, seq![("Drive"@, 0x0000_00E1u32, 0x0000_0000u32, 0x4120_0000u32, 0x4040_0000u32, false, ""@), ("Tone"@, 0x0000_00E2u32, 0x0000_0000u32, 0x3F80_0000u32, 0x3F00_0000u32, false, ""@), ("Mix"@, 0x0000_00E3u32, 0x0000_0000u32, 0x3F80_0000u32, 0x3F80_0000u32, false, ""@)]),
        ("Overdrive"@, "Effects"@, "🎸"@, (186u8, 104u8, 200u8, 255u8), 1usize, 1usize, NodeType::Gain, seq![("Drive"@, 0x0000_00E4u32, 0x0000_0000u32, 0x4120_0000u32, 0x4000_0000u32, false, ""@), ("Tone"@, 0x0000_00E5u32, 0x0000_0000u32, 0x3F80_0000u32, 0x3F19_999Au32, false, ""@)]),
        ("Bitcrusher"@, "Effects"@, "👾"@, (186u8, 104u8, 200u8, 255u8), 1usize, 1usize, NodeType::Gain, seq![("Bits"@, 0x0000_00E6u32, 0x3F80_0000u32, 0x4180_0000u32, 0x4100_0000u32, false, ""@), ("Downsample"@, 0x0000_00E7u32, 0x3F80_0000u32, 0x4280_0000u32, 0x3F80_0000u32, false, "x"@)]),
        ("Ring Modulator"@, "Effects"@, "💍"@, (186u8, 104u8, 200u8, 255u8), 1usize, 1usize, NodeType::Gain, seq![("Frequency"@, 0x0000_00E8u32, 0x3F80_0000u32, 0x459C_4000u32, 0x4348_0000u32, true, "Hz"@), ("Mix"@, 0x0000_00E9u32, 0x0000_0000u32, 0x3F80_0000u32, 0x3F00_0000u32, false, ""@)]),
        ("Tremolo"@, "Effects"@, "〰"@, (186u8, 104u8, 200u8, 255u8), 1usize, 1usize, NodeType::Gain, seq![("Rate"@, 0x0000_00EAu32, 0x3DCC_CCCDu32, 0x41A0_0000u32, 0x40A0_0000u32, false, "Hz"@), ("Depth"@, 0x0000_00EBu32, 0x0000_0000u32, 0x3F80_0000u32, 0x3F00_0000u32, false, ""@)]),
        ("Vibrato"@, "Effects"@, "🎻"@, (186u8, 104u8, 200u8, 255u8), 1usize, 1usize, NodeType::Filter, seq![("Rate"@, 0x0000_00ECu32, 0x3DCC_CCCDu32, 0x41A0_0000u32, 0x40A0_0000u32, false, "Hz"@), ("Depth"@, 0x0000_00EDu32, 0x0000_0000u32, 0x3F80_0000u32, 0x3E99_999Au32, false, ""@)]),
        ("Waveshaper"@, "Effects"@, "📈"@, (186u8, 104u8, 200u8, 255u8), 1usize, 1usize, NodeType::Gain, seq![("Amount"@, 0x0000_00EEu32, 0x0000_0000u32, 0x4120_0000u32, 0x3F80_0000u32, false, ""@), ("Symmetry"@, 0x0000_00EFu32, 0xBF80_0000u32, 0x3F80_0000u32, 0x0000_0000u32, false, ""@)]),
        ("Pitch Shifter"@, "Effects"@, "🎼"@, (186u8, 104u8, 200u8, 255u8), 1usize, 1usize, NodeType::Filter, seq![("Semitones"@, 0x0000_00F0u32, 0xC1C0_0000u32, 0x41C0_0000u32, 0x0000_0000u32, false, "st"@), ("Mix"@, 0x0000_00F1u32, 0x0000_0000u32, 0x3F80_0000u32, 0x3F80_0000u32, false, ""@)]),
        ("Stereo Widener"@, "Effects"@, "↔"@, (186u8, 104u8, 200u8, 255u8), 1usize, 1usize, NodeType::Gain, seq![("Width"@, 0x0000_00F2u32, 0x0000_0000u32, 0x4000_0000u32, 0x3F80_0000u32, false, ""@)]),
        ("LFO Sine"@, "Modulators"@, "🔄"@, (255u8, 213u8, 79u8, 255u8), 0usize, 1usize, NodeType::Oscillator, seq![("Rate"@, 0x811C_9DC5u32, 0x3C23_D70Au32, 0x4248_0000u32, 0x3F80_0000u32, true, "Hz"@), ("Depth"@, 0x0000_0010u32, 0x0000_0000u32, 0x3F80_0000u32, 0x3F80_0000u32, false, ""@)]),
        ("LFO Square"@, "Modulators"@, "⬛"@, (255u8, 213u8, 79u8, 255u8), 0usize, 1usize, NodeType::Oscillator, seq![("Rate"@, 0x811C_9DC5u32, 0x3C23_D70Au32, 0x4248_0000u32, 0x3F80_0000u32, true, "Hz"@), ("Depth"@, 0x0000_0011u32, 0x0000_0000u32, 0x3F80_0000u32, 0x3F80_0000u32, false, ""@)]),
        ("LFO Triangle"@, "Modulators"@, "🔺"@, (255u8, 213u8, 79u8, 255u8), 0usize, 1usize, NodeType::Oscillator, seq![("Rate"@, 0x811C_9DC5u32, 0x3C23_D70Au32, 0x4248_0000u32, 0x3F80_0000u32, true, "Hz"@), ("Depth"@, 0x0000_0012u32, 0x0000_0000u32, 0x3F80_0000u32, 0x3F80_0000u32, false, ""@)]),
        ("LFO Sample & Hold"@, "Modulators"@, "🎲"@, (255u8, 213u8, 79u8, 255u8), 0usize, 1usize, NodeType::Oscillator, seq![("Rate"@, 0x811C_9DC5u32, 0x3C23_D70Au32, 0x4248_0000u32, 0x4000_0000u32, true, "Hz"@), ("Depth"@, 0x0000_0013u32, 0x0000_0000u32, 0x3F80_0000u32, 0x3F80_0000u32, false, ""@)]),
        ("ADSR Envelope"@, "Modulators"@, "📉"@, (255u8, 213u8, 79u8, 255u8), 0usize, 1usize, NodeType::Oscillator, seq![("Attack"@, 0x0000_0014u32, 0x3A83_126Fu32, 0x40A0_0000u32, 0x3C23_D70Au32, true, "s"@), ("Decay"@, 0x0000_0015u32, 0x3A83_126Fu32, 0x40A0_0000u32, 0x3DCC_CCCDu32, true, "s"@), ("Sustain"@, 0x0000_0016u32, 0x0000_0000u32, 0x3F80_0000u32, 0x3F33_3333u32, false, ""@), ("Release"@, 0x0000_0017u32, 0x3A83_126Fu32, 0x4120_0000u32, 0x3E99_999Au32, true, "s"@)]),
        ("AR Envelope"@, "Modulators"@, "📈"@, (255u8, 213u8, 79u8, 255u8), 0usize, 1usize, NodeType::Oscillator, seq![("Attack"@, 0x0000_0018u32, 0x3A83_126Fu32, 0x40A0_0000u32, 0x3C23_D70Au32, true, "s"@), ("Release"@, 0x0000_0019u32, 0x3A83_126Fu32, 0x4120_0000u32, 0x3E99_999Au32, true, "s"@)]),
        ("Mixer 2-Ch"@, "Utility"@, "🎛"@, (176u8, 190u8, 197u8, 255u8), 2usize, 1usize, NodeType::Gain, seq![("Ch A"@, 0x0000_0020u32, 0x0000_0000u32, 0x4000_0000u32, 0x3F80_0000u32, false, ""@), ("Ch B"@, 0x0000_0021u32, 0x0000_0000u32, 0x4000_0000u32, 0x3F80_0000u32, false, ""@)]),
        ("Crossfade"@, "Utility"@, "🔀"@, (176u8, 190u8, 197u8, 255u8), 2usize, 1usize, NodeType::Gain, seq![("Mix"@, 0x0000_0022u32, 0x0000_0000u32, 0x3F80_0000u32, 0x3F00_0000u32, false, ""@)]),
        ("Constant"@, "Utility"@, "🔢"@, (176u8, 190u8, 197u8, 255u8), 0usize, 1usize, NodeType::Oscillator, seq![("Value"@, 0x811C_9DC5u32, 0x0000_0000u32, 0x4120_0000u32, 0x3F80_0000u32, false, ""@)]),
        ("DC Offset"@, "Utility"@, "➡"@, (176u8, 190u8, 197u8, 255u8), 1usize, 1usize, NodeType::Gain, seq![("Offset"@, 0x0000_0023u32, 0xBF80_0000u32, 0x3F80_0000u32, 0x0000_0000u32, false, ""@)]),
        ("Inverter"@, "Utility"@, "🔃"@, (176u8, 190u8, 197u8, 255u8), 1usize, 1usize, NodeType::Gain, seq![]),
        ("Splitter"@, "Utility"@, "🔱"@, (176u8, 190u8, 197u8, 255u8), 1usize, 2usize, NodeType::Gain, seq![]),
        ("Speaker Output"@, "Output"@, "🎧"@, (200u8, 200u8, 200u8, 255u8), 1usize, 0usize, NodeType::Output, seq![]),
    ]
}

/// Every template of the catalog, in order.
#[verifier::rlimit(100)]
pub fn catalog() -> (c: Vec<NodeTemplate>)
    ensures
        c@.len() == 66,
        catalog_table().len() == 66,
        forall|i: int| 0 <= i < 66 ==> #[trigger] template_row(c@[i]) == catalog_table()[i],
{
    let c = vec![
        NodeTemplate {
            name: "Sine Oscillator",
            category: "Oscillators",
            icon: "🎵",
            color: Rgba { r: 255, g: 183, b: 77, a: 255 },
            num_inputs: 0,
            num_outputs: 1,
            engine_type: NodeType::Oscillator,
            params: vec![ParamDef { name: "Frequency", hash: 0x811C_9DC5, min_bits: 0x41A0_0000, max_bits: 0x469C_4000, default_bits: 0x43DC_0000, log: true, suffix: "Hz" }],
        },
        NodeTemplate {
            name: "Square Wave",
            category: "Oscillators",
            icon: "⬜",
            color: Rgba { r: 255, g: 183, b: 77, a: 255 },
            num_inputs: 0,
            num_outputs: 1,
            engine_type: NodeType::Oscillator,
            params: vec![ParamDef { name: "Frequency", hash: 0x811C_9DC5, min_bits: 0x41A0_0000, max_bits: 0x469C_4000, default_bits: 0x43DC_0000, log: true, suffix: "Hz" }, ParamDef { name: "Duty Cycle", hash: 0x0000_00A1, min_bits: 0x3C23_D70A, max_bits: 0x3F7D_70A4, default_bits: 0x3F00_0000, log: false, suffix: "" }],
        },
        NodeTemplate {
            name: "Sawtooth Wave",
            category: "Oscillators",
            icon: "📐",
            color: Rgba { r: 255, g: 183, b: 77, a: 255 },
            num_inputs: 0,
            num_outputs: 1,
            engine_type: NodeType::Oscillator,
            params: vec![ParamDef { name: "Frequency", hash: 0x811C_9DC5, min_bits: 0x41A0_0000, max_bits: 0x469C_4000, default_bits: 0x43DC_0000, log: true, suffix: "Hz" }],
        },
        NodeTemplate {
            name: "Triangle Wave",
            category: "Oscillators",
            icon: "🔺",
            color: Rgba { r: 255, g: 183, b: 77, a: 255 },
            num_inputs: 0,
            num_outputs: 1,
            engine_type: NodeType::Oscillator,
            params: vec![ParamDef { name: "Frequency", hash: 0x811C_9DC5, min_bits: 0x41A0_0000, max_bits: 0x469C_4000, default_bits: 0x43DC_0000, log: true, suffix: "Hz" }],
        },
        NodeTemplate {
            name: "Pulse Wave",
            category: "Oscillators",
            icon: "⚡",
            color: Rgba { r: 255, g: 183, b: 77, a: 255 },
            num_inputs: 0,
            num_outputs: 1,
            engine_type: NodeType::Oscillator,
            params: vec![ParamDef { name: "Frequency", hash: 0x811C_9DC5, min_bits: 0x41A0_0000, max_bits: 0x469C_4000, default_bits: 0x43DC_0000, log: true, suffix: "Hz" }, ParamDef { name: "Width", hash: 0x0000_00A2, min_bits: 0x3C23_D70A, max_bits: 0x3F7D_70A4, default_bits: 0x3F00_0000, log: false, suffix: "" }],
        },
        NodeTemplate {
            name: "White Noise",
            category: "Oscillators",
            icon: "🌫",
            color: Rgba { r: 255, g: 183, b: 77, a: 255 },
            num_inputs: 0,
            num_outputs: 1,
            engine_type: NodeType::Oscillator,
            params: vec![ParamDef { name: "Amplitude", hash: 0x811C_9DC5, min_bits: 0x0000_0000, max_bits: 0x3F80_0000, default_bits: 0x3F00_0000, log: false, suffix: "" }],
        },
        NodeTemplate {
            name: "Pink Noise",
            category: "Oscillators",
            icon: "🩷",
            color: Rgba { r: 255, g: 183, b: 77, a: 255 },
            num_inputs: 0,
            num_outputs: 1,
            engine_type: NodeType::Oscillator,
            params: vec![ParamDef { name: "Amplitude", hash: 0x811C_9DC5, min_bits: 0x0000_0000, max_bits: 0x3F80_0000, default_bits: 0x3F00_0000, log: false, suffix: "" }],
        },
        NodeTemplate {
            name: "Brown Noise",
            category: "Oscillators",
            icon: "🟤",
            color: Rgba { r: 255, g: 183, b: 77, a: 255 },
            num_inputs: 0,
            num_outputs: 1,
            engine_type: NodeType::Oscillator,
            params: vec![ParamDef { name: "Amplitude", hash: 0x811C_9DC5, min_bits: 0x0000_0000, max_bits: 0x3F80_0000, default_bits: 0x3F00_0000, log: false, suffix: "" }],
        },
        NodeTemplate {
            name: "FM Oscillator",
            category: "Oscillators",
            icon: "📻",
            color: Rgba { r: 255, g: 183, b: 77, a: 255 },
            num_inputs: 0,
            num_outputs: 1,
            engine_type: NodeType::Oscillator,
            params: vec![ParamDef { name: "Carrier", hash: 0x811C_9DC5, min_bits: 0x41A0_0000, max_bits: 0x469C_4000, default_bits: 0x43DC_0000, log: true, suffix: "Hz" }, ParamDef { name: "Mod Depth", hash: 0x0000_00A3, min_bits: 0x0000_0000, max_bits: 0x4120_0000, default_bits: 0x3F80_0000, log: false, suffix: "" }, ParamDef { name: "Mod Freq", hash: 0x0000_00A4, min_bits: 0x3DCC_CCCD, max_bits: 0x447A_0000, default_bits: 0x40A0_0000, log: true, suffix: "Hz" }],
        },
        NodeTemplate {
            name: "AM Oscillator",
            category: "Oscillators",
            icon: "📡",
            color: Rgba { r: 255, g: 183, b: 77, a: 255 },
            num_inputs: 0,
            num_outputs: 1,
            engine_type: NodeType::Oscillator,
            params: vec![ParamDef { name: "Carrier", hash: 0x811C_9DC5, min_bits: 0x41A0_0000, max_bits: 0x469C_4000, default_bits: 0x43DC_0000, log: true, suffix: "Hz" }, ParamDef { name: "Mod Depth", hash: 0x0000_00A5, min_bits: 0x0000_0000, max_bits: 0x3F80_0000, default_bits: 0x3F00_0000, log: false, suffix: "" }, ParamDef { name: "Mod Freq", hash: 0x0000_00A6, min_bits: 0x3DCC_CCCD, max_bits: 0x42C8_0000, default_bits: 0x40A0_0000, log: true, suffix: "Hz" }],
        },
        NodeTemplate {
            name: "Wavetable",
            category: "Oscillators",
            icon: "🌊",
            color: Rgba { r: 255, g: 183, b: 77, a: 255 },
            num_inputs: 0,
            num_outputs: 1,
            engine_type: NodeType::Oscillator,
            params: vec![ParamDef { name: "Frequency", hash: 0x811C_9DC5, min_bits: 0x41A0_0000, max_bits: 0x469C_4000, default_bits: 0x43DC_0000, log: true, suffix: "Hz" }, ParamDef { name: "Position", hash: 0x0000_00A7, min_bits: 0x0000_0000, max_bits: 0x3F80_0000, default_bits: 0x0000_0000, log: false, suffix: "" }],
        },
        NodeTemplate {
            name: "Sub Oscillator",
            category: "Oscillators",
            icon: "🔉",
            color: Rgba { r: 255, g: 183, b: 77, a: 255 },
            num_inputs: 0,
            num_outputs: 1,
            engine_type: NodeType::Oscillator,
            params: vec![ParamDef { name: "Frequency", hash: 0x811C_9DC5, min_bits: 0x41A0_0000, max_bits: 0x469C_4000, default_bits: 0x42DC_0000, log: true, suffix: "Hz" }, ParamDef { name: "Octave", hash: 0x0000_00A8, min_bits: 0xC040_0000, max_bits: 0x0000_0000, default_bits: 0xBF80_0000, log: false, suffix: "" }],
        },
        NodeTemplate {
            name: "Super Saw",
            category: "Oscillators",
            icon: "🪚",
            color: Rgba { r: 255, g: 183, b: 77, a: 255 },
            num_inputs: 0,
            num_outputs: 1,
            engine_type: NodeType::Oscillator,
            params: vec![ParamDef { name: "Frequency", hash: 0x811C_9DC5, min_bits: 0x41A0_0000, max_bits: 0x469C_4000, default_bits: 0x43DC_0000, log: true, suffix: "Hz" }, ParamDef { name: "Detune", hash: 0x0000_00A9, min_bits: 0x0000_0000, max_bits: 0x3F80_0000, default_bits: 0x3E99_999A, log: false, suffix: "" }, ParamDef { name: "Voices", hash: 0x0000_00AA, min_bits: 0x3F80_0000, max_bits: 0x40E0_0000, default_bits: 0x40A0_0000, log: false, suffix: "" }],
        },
        NodeTemplate {
            name: "Additive Synth",
            category: "Oscillators",
            icon: "➕",
            color: Rgba { r: 255, g: 183, b: 77, a: 255 },
            num_inputs: 0,
            num_outputs: 1,
            engine_type: NodeType::Oscillator,
            params: vec![ParamDef { name: "Fundamental", hash: 0x811C_9DC5, min_bits: 0x41A0_0000, max_bits: 0x459C_4000, default_bits: 0x435C_0000, log: true, suffix: "Hz" }, ParamDef { name: "Harmonics", hash: 0x0000_00AB, min_bits: 0x3F80_0000, max_bits: 0x4200_0000, default_bits: 0x4100_0000, log: false, suffix: "" }, ParamDef { name: "Rolloff", hash: 0x0000_00AC, min_bits: 0x3DCC_CCCD, max_bits: 0x4000_0000, default_bits: 0x3F80_0000, log: false, suffix: "" }],
        },
        NodeTemplate {
            name: "Low-Pass Filter",
            category: "Filters",
            icon: "⬇",
            color: Rgba { r: 129, g: 199, b: 132, a: 255 },
            num_inputs: 1,
            num_outputs: 1,
            engine_type: NodeType::Filter,
            params: vec![ParamDef { name: "Cutoff", hash: 0x811C_9DC5, min_bits: 0x41A0_0000, max_bits: 0x469C_4000, default_bits: 0x459C_4000, log: true, suffix: "Hz" }, ParamDef { name: "Resonance", hash: 0x050C_5D2E, min_bits: 0x3DCC_CCCD, max_bits: 0x4140_0000, default_bits: 0x3F34_FDF4, log: false, suffix: "" }],
        },
        NodeTemplate {
            name: "High-Pass Filter",
            category: "Filters",
            icon: "⬆",
            color: Rgba { r: 129, g: 199, b: 132, a: 255 },
            num_inputs: 1,
            num_outputs: 1,
            engine_type: NodeType::Filter,
            params: vec![ParamDef { name: "Cutoff", hash: 0x811C_9DC5, min_bits: 0x41A0_0000, max_bits: 0x469C_4000, default_bits: 0x4348_0000, log: true, suffix: "Hz" }, ParamDef { name: "Resonance", hash: 0x050C_5D2E, min_bits: 0x3DCC_CCCD, max_bits: 0x4140_0000, default_bits: 0x3F34_FDF4, log: false, suffix: "" }],
        },
        NodeTemplate {
            name: "Band-Pass Filter",
            category: "Filters",
            icon: "↔",
            color: Rgba { r: 129, g: 199, b: 132, a: 255 },
            num_inputs: 1,
            num_outputs: 1,
            engine_type: NodeType::Filter,
            params: vec![ParamDef { name: "Center", hash: 0x811C_9DC5, min_bits: 0x41A0_0000, max_bits: 0x469C_4000, default_bits: 0x447A_0000, log: true, suffix: "Hz" }, ParamDef { name: "Bandwidth", hash: 0x050C_5D2E, min_bits: 0x3DCC_CCCD, max_bits: 0x4140_0000, default_bits: 0x3F80_0000, log: false, suffix: "" }],
        },
        NodeTemplate {
            name: "Notch Filter",
            category: "Filters",
            icon: "🚫",
            color: Rgba { r: 129, g: 199, b: 132, a: 255 },
            num_inputs: 1,
            num_outputs: 1,
            engine_type: NodeType::Filter,
            params: vec![ParamDef { name: "Center", hash: 0x811C_9DC5, min_bits: 0x41A0_0000, max_bits: 0x469C_4000, default_bits: 0x447A_0000, log: true, suffix: "Hz" }, ParamDef { name: "Width", hash: 0x050C_5D2E, min_bits: 0x3DCC_CCCD, max_bits: 0x4140_0000, default_bits: 0x3F80_0000, log: false, suffix: "" }],
        },
        NodeTemplate {
            name: "All-Pass Filter",
            category: "Filters",
            icon: "🔄",
            color: Rgba { r: 129, g: 199, b: 132, a: 255 },
            num_inputs: 1,
            num_outputs: 1,
            engine_type: NodeType::Filter,
            params: vec![ParamDef { name: "Cutoff", hash: 0x811C_9DC5, min_bits: 0x41A0_0000, max_bits: 0x469C_4000, default_bits: 0x447A_0000, log: true, suffix: "Hz" }],
        },
        NodeTemplate {
            name: "Comb Filter",
            category: "Filters",
            icon: "🪮",
            color: Rgba { r: 129, g: 199, b: 132, a: 255 },
            num_inputs: 1,
            num_outputs: 1,
            engine_type: NodeType::Filter,
            params: vec![ParamDef { name: "Delay", hash: 0x0000_00B1, min_bits: 0x3DCC_CCCD, max_bits: 0x4248_0000, default_bits: 0x40A0_0000, log: false, suffix: "ms" }, ParamDef { name: "Feedback", hash: 0x0000_00B2, min_bits: 0x0000_0000, max_bits: 0x3F7D_70A4, default_bits: 0x3F33_3333, log: false, suffix: "" }],
        },
        NodeTemplate {
            name: "Formant Filter",
            category: "Filters",
            icon: "🗣",
            color: Rgba { r: 129, g: 199, b: 132, a: 255 },
            num_inputs: 1,
            num_outputs: 1,
            engine_type: NodeType::Filter,
            params: vec![ParamDef { name: "Vowel", hash: 0x0000_00B3, min_bits: 0x0000_0000, max_bits: 0x4080_0000, default_bits: 0x0000_0000, log: false, suffix: "" }, ParamDef { name: "Shift", hash: 0x0000_00B4, min_bits: 0xC140_0000, max_bits: 0x4140_0000, default_bits: 0x0000_0000, log: false, suffix: "st" }],
        },
        NodeTemplate {
            name: "Moog Ladder",
            category: "Filters",
            icon: "🎛",
            color: Rgba { r: 129, g: 199, b: 132, a: 255 },
            num_inputs: 1,
            num_outputs: 1,
            engine_type: NodeType::Filter,
            params: vec![ParamDef { name: "Cutoff", hash: 0x811C_9DC5, min_bits: 0x41A0_0000, max_bits: 0x469C_4000, default_bits: 0x44FA_0000, log: true, suffix: "Hz" }, ParamDef { name: "Resonance", hash: 0x050C_5D2E, min_bits: 0x0000_0000, max_bits: 0x4080_0000, default_bits: 0x3F80_0000, log: false, suffix: "" }, ParamDef { name: "Drive", hash: 0x0000_00B5, min_bits: 0x0000_0000, max_bits: 0x40A0_0000, default_bits: 0x0000_0000, log: false, suffix: "" }],
        },
        NodeTemplate {
            name: "State Variable",
            category: "Filters",
            icon: "🔀",
            color: Rgba { r: 129, g: 199, b: 132, a: 255 },
            num_inputs: 1,
            num_outputs: 1,
            engine_type: NodeType::Filter,
            params: vec![ParamDef { name: "Cutoff", hash: 0x811C_9DC5, min_bits: 0x41A0_0000, max_bits: 0x469C_4000, default_bits: 0x453B_8000, log: true, suffix: "Hz" }, ParamDef { name: "Resonance", hash: 0x050C_5D2E, min_bits: 0x3DCC_CCCD, max_bits: 0x4120_0000, default_bits: 0x3F34_FDF4, log: false, suffix: "" }, ParamDef { name: "Mix LP/HP", hash: 0x0000_00B6, min_bits: 0x0000_0000, max_bits: 0x3F80_0000, default_bits: 0x0000_0000, log: false, suffix: "" }],
        },
        NodeTemplate {
            name: "Parametric EQ",
            category: "Filters",
            icon: "📊",
            color: Rgba { r: 129, g: 199, b: 132, a: 255 },
            num_inputs: 1,
            num_outputs: 1,
            engine_type: NodeType::Filter,
            params: vec![ParamDef { name: "Frequency", hash: 0x811C_9DC5, min_bits: 0x41A0_0000, max_bits: 0x469C_4000, default_bits: 0x447A_0000, log: true, suffix: "Hz" }, ParamDef { name: "Gain dB", hash: 0x050C_5D2E, min_bits: 0xC190_0000, max_bits: 0x4190_0000, default_bits: 0x0000_0000, log: false, suffix: "dB" }, ParamDef { name: "Q", hash: 0x0000_00B7, min_bits: 0x3DCC_CCCD, max_bits: 0x41A0_0000, default_bits: 0x3F80_0000, log: false, suffix: "" }],
        },
        NodeTemplate {
            name: "Low Shelf EQ",
            category: "Filters",
            icon: "📉",
            color: Rgba { r: 129, g: 199, b: 132, a: 255 },
            num_inputs: 1,
            num_outputs: 1,
            engine_type: NodeType::Filter,
            params: vec![ParamDef { name: "Frequency", hash: 0x811C_9DC5, min_bits: 0x41A0_0000, max_bits: 0x459C_4000, default_bits: 0x4348_0000, log: true, suffix: "Hz" }, ParamDef { name: "Gain dB", hash: 0x050C_5D2E, min_bits: 0xC190_0000, max_bits: 0x4190_0000, default_bits: 0x0000_0000, log: false, suffix: "dB" }],
        },
        NodeTemplate {
            name: "High Shelf EQ",
            category: "Filters",
            icon: "📈",
            color: Rgba { r: 129, g: 199, b: 132, a: 255 },
            num_inputs: 1,
            num_outputs: 1,
            engine_type: NodeType::Filter,
            params: vec![ParamDef { name: "Frequency", hash: 0x811C_9DC5, min_bits: 0x447A_0000, max_bits: 0x469C_4000, default_bits: 0x45FA_0000, log: true, suffix: "Hz" }, ParamDef { name: "Gain dB", hash: 0x050C_5D2E, min_bits: 0xC190_0000, max_bits: 0x4190_0000, default_bits: 0x0000_0000, log: false, suffix: "dB" }],
        },
        NodeTemplate {
            name: "Tilt EQ",
            category: "Filters",
            icon: "↗",
            color: Rgba { r: 129, g: 199, b: 132, a: 255 },
            num_inputs: 1,
            num_outputs: 1,
            engine_type: NodeType::Filter,
            params: vec![ParamDef { name: "Tilt dB", hash: 0x811C_9DC5, min_bits: 0xC0C0_0000, max_bits: 0x40C0_0000, default_bits: 0x0000_0000, log: false, suffix: "dB" }, ParamDef { name: "Center", hash: 0x050C_5D2E, min_bits: 0x4348_0000, max_bits: 0x459C_4000, default_bits: 0x447A_0000, log: true, suffix: "Hz" }],
        },
        NodeTemplate {
            name: "DC Blocker",
            category: "Filters",
            icon: "🚿",
            color: Rgba { r: 129, g: 199, b: 132, a: 255 },
            num_inputs: 1,
            num_outputs: 1,
            engine_type: NodeType::Filter,
            params: vec![ParamDef { name: "Cutoff", hash: 0x811C_9DC5, min_bits: 0x40A0_0000, max_bits: 0x42A0_0000, default_bits: 0x41A0_0000, log: false, suffix: "Hz" }],
        },
        NodeTemplate {
            name: "Moving Average",
            category: "Filters",
            icon: "📏",
            color: Rgba { r: 129, g: 199, b: 132, a: 255 },
            num_inputs: 1,
            num_outputs: 1,
            engine_type: NodeType::Filter,
            params: vec![ParamDef { name: "Window", hash: 0x0000_00B8, min_bits: 0x3F80_0000, max_bits: 0x4300_0000, default_bits: 0x4100_0000, log: false, suffix: "samp" }],
        },
        NodeTemplate {
            name: "Crossover",
            category: "Filters",
            icon: "✂",
            color: Rgba { r: 129, g: 199, b: 132, a: 255 },
            num_inputs: 1,
            num_outputs: 2,
            engine_type: NodeType::Filter,
            params: vec![ParamDef { name: "Frequency", hash: 0x811C_9DC5, min_bits: 0x42C8_0000, max_bits: 0x461C_4000, default_bits: 0x447A_0000, log: true, suffix: "Hz" }, ParamDef { name: "Order", hash: 0x0000_00B9, min_bits: 0x3F80_0000, max_bits: 0x4080_0000, default_bits: 0x4000_0000, log: false, suffix: "" }],
        },
        NodeTemplate {
            name: "Resonator",
            category: "Filters",
            icon: "🔔",
            color: Rgba { r: 129, g: 199, b: 132, a: 255 },
            num_inputs: 1,
            num_outputs: 1,
            engine_type: NodeType::Filter,
            params: vec![ParamDef { name: "Frequency", hash: 0x811C_9DC5, min_bits: 0x4248_0000, max_bits: 0x461C_4000, default_bits: 0x43FA_0000, log: true, suffix: "Hz" }, ParamDef { name: "Decay", hash: 0x050C_5D2E, min_bits: 0x3C23_D70A, max_bits: 0x40A0_0000, default_bits: 0x3F00_0000, log: true, suffix: "s" }],
        },
        NodeTemplate {
            name: "Vowel Filter",
            category: "Filters",
            icon: "🅰",
            color: Rgba { r: 129, g: 199, b: 132, a: 255 },
            num_inputs: 1,
            num_outputs: 1,
            engine_type: NodeType::Filter,
            params: vec![ParamDef { name: "Vowel", hash: 0x0000_00BA, min_bits: 0x0000_0000, max_bits: 0x4080_0000, default_bits: 0x0000_0000, log: false, suffix: "" }, ParamDef { name: "Q", hash: 0x050C_5D2E, min_bits: 0x3F00_0000, max_bits: 0x4120_0000, default_bits: 0x4000_0000, log: false, suffix: "" }],
        },
        NodeTemplate {
            name: "Gain",
            category: "Dynamics",
            icon: "🔊",
            color: Rgba { r: 100, g: 181, b: 246, a: 255 },
            num_inputs: 1,
            num_outputs: 1,
            engine_type: NodeType::Gain,
            params: vec![ParamDef { name: "Level", hash: 0x811C_9DC5, min_bits: 0x0000_0000, max_bits: 0x4000_0000, default_bits: 0x3F80_0000, log: false, suffix: "" }],
        },
        NodeTemplate {
            name: "Attenuator",
            category: "Dynamics",
            icon: "🔉",
            color: Rgba { r: 100, g: 181, b: 246, a: 255 },
            num_inputs: 1,
            num_outputs: 1,
            engine_type: NodeType::Gain,
            params: vec![ParamDef { name: "Amount", hash: 0x811C_9DC5, min_bits: 0x0000_0000, max_bits: 0x3F80_0000, default_bits: 0x3F00_0000, log: false, suffix: "" }],
        },
        NodeTemplate {
            name: "VCA",
            category: "Dynamics",
            icon: "🎚",
            color: Rgba { r: 100, g: 181, b: 246, a: 255 },
            num_inputs: 1,
            num_outputs: 1,
            engine_type: NodeType::Gain,
            params: vec![ParamDef { name: "Level", hash: 0x811C_9DC5, min_bits: 0x0000_0000, max_bits: 0x4000_0000, default_bits: 0x3F80_0000, log: false, suffix: "" }],
        },
        NodeTemplate {
            name: "Compressor",
            category: "Dynamics",
            icon: "🗜",
            color: Rgba { r: 100, g: 181, b: 246, a: 255 },
            num_inputs: 1,
            num_outputs: 1,
            engine_type: NodeType::Gain,
            params: vec![ParamDef { name: "Threshold", hash: 0x811C_9DC5, min_bits: 0xC270_0000, max_bits: 0x0000_0000, default_bits: 0xC1A0_0000, log: false, suffix: "dB" }, ParamDef { name: "Ratio", hash: 0x0000_00C1, min_bits: 0x3F80_0000, max_bits: 0x41A0_0000, default_bits: 0x4080_0000, log: false, suffix: ":1" }, ParamDef { name: "Attack", hash: 0x0000_00C2, min_bits: 0x3DCC_CCCD, max_bits: 0x42C8_0000, default_bits: 0x4120_0000, log: true, suffix: "ms" }, ParamDef { name: "Release", hash: 0x0000_00C3, min_bits: 0x4120_0000, max_bits: 0x447A_0000, default_bits: 0x42C8_0000, log: true, suffix: "ms" }],
        },
        NodeTemplate {
            name: "Limiter",
            category: "Dynamics",
            icon: "🛑",
            color: Rgba { r: 100, g: 181, b: 246, a: 255 },
            num_inputs: 1,
            num_outputs: 1,
            engine_type: NodeType::Gain,
            params: vec![ParamDef { name: "Threshold", hash: 0x811C_9DC5, min_bits: 0xC1A0_0000, max_bits: 0x0000_0000, default_bits: 0xC040_0000, log: false, suffix: "dB" }, ParamDef { name: "Release", hash: 0x0000_00C4, min_bits: 0x4120_0000, max_bits: 0x43FA_0000, default_bits: 0x4248_0000, log: true, suffix: "ms" }],
        },
        NodeTemplate {
            name: "Gate",
            category: "Dynamics",
            icon: "🚧",
            color: Rgba { r: 100, g: 181, b: 246, a: 255 },
            num_inputs: 1,
            num_outputs: 1,
            engine_type: NodeType::Gain,
            params: vec![ParamDef { name: "Threshold", hash: 0x811C_9DC5, min_bits: 0xC2A0_0000, max_bits: 0x0000_0000, default_bits: 0xC220_0000, log: false, suffix: "dB" }, ParamDef { name: "Attack", hash: 0x0000_00C5, min_bits: 0x3DCC_CCCD, max_bits: 0x4248_0000, default_bits: 0x3F80_0000, log: true, suffix: "ms" }, ParamDef { name: "Release", hash: 0x0000_00C6, min_bits: 0x4120_0000, max_bits: 0x43FA_0000, default_bits: 0x4248_0000, log: true, suffix: "ms" }],
        },
        NodeTemplate {
            name: "Expander",
            category: "Dynamics",
            icon: "↕",
            color: Rgba { r: 100, g: 181, b: 246, a: 255 },
            num_inputs: 1,
            num_outputs: 1,
            engine_type: NodeType::Gain,
            params: vec![ParamDef { name: "Threshold", hash: 0x811C_9DC5, min_bits: 0xC270_0000, max_bits: 0x0000_0000, default_bits: 0xC1F0_0000, log: false, suffix: "dB" }, ParamDef { name: "Ratio", hash: 0x0000_00C7, min_bits: 0x3F80_0000, max_bits: 0x4120_0000, default_bits: 0x4000_0000, log: false, suffix: ":1" }],
        },
        NodeTemplate {
            name: "Delay",
            category: "Effects",
            icon: "⏱",
            color: Rgba { r: 186, g: 104, b: 200, a: 255 },
            num_inputs: 1,
            num_outputs: 1,
            engine_type: NodeType::Filter,
            params: vec![ParamDef { name: "Time", hash: 0x0000_00D1, min_bits: 0x3F80_0000, max_bits: 0x44FA_0000, default_bits: 0x437A_0000, log: true, suffix: "ms" }, ParamDef { name: "Feedback", hash: 0x0000_00D2, min_bits: 0x0000_0000, max_bits: 0x3F7D_70A4, default_bits: 0x3F00_0000, log: false, suffix: "" }, ParamDef { name: "Mix", hash: 0x0000_00D3, min_bits: 0x0000_0000, max_bits: 0x3F80_0000, default_bits: 0x3F00_0000, log: false, suffix: "" }],
        },
        NodeTemplate {
            name: "Reverb",
            category: "Effects",
            icon: "🏛",
            color: Rgba { r: 186, g: 104, b: 200, a: 255 },
            num_inputs: 1,
            num_outputs: 1,
            engine_type: NodeType::Filter,
            params: vec![ParamDef { name: "Size", hash: 0x0000_00D4, min_bits: 0x0000_0000, max_bits: 0x3F80_0000, default_bits: 0x3F19_999A, log: false, suffix: "" }, ParamDef { name: "Damping", hash: 0x0000_00D5, min_bits: 0x0000_0000, max_bits: 0x3F80_0000, default_bits: 0x3F00_0000, log: false, suffix: "" }, ParamDef { name: "Mix", hash: 0x0000_00D6, min_bits: 0x0000_0000, max_bits: 0x3F80_0000, default_bits: 0x3E99_999A, log: false, suffix: "" }],
        },
        NodeTemplate {
            name: "Chorus",
            category: "Effects",
            icon: "🎭",
            color: Rgba { r: 186, g: 104, b: 200, a: 255 },
            num_inputs: 1,
            num_outputs: 1,
            engine_type: NodeType::Filter,
            params: vec![ParamDef { name: "Rate", hash: 0x0000_00D7, min_bits: 0x3DCC_CCCD, max_bits: 0x4120_0000, default_bits: 0x3F80_0000, log: false, suffix: "Hz" }, ParamDef { name: "Depth", hash: 0x0000_00D8, min_bits: 0x0000_0000, max_bits: 0x3F80_0000, default_bits: 0x3F00_0000, log: false, suffix: "" }, ParamDef { name: "Mix", hash: 0x0000_00D9, min_bits: 0x0000_0000, max_bits: 0x3F80_0000, default_bits: 0x3F00_0000, log: false, suffix: "" }],
        },
        NodeTemplate {
            name: "Flanger",
            category: "Effects",
            icon: "✈",
            color: Rgba { r: 186, g: 104, b: 200, a: 255 },
            num_inputs: 1,
            num_outputs: 1,
            engine_type: NodeType::Filter,
            params: vec![ParamDef { name: "Rate", hash: 0x0000_00DA, min_bits: 0x3D4C_CCCD, max_bits: 0x40A0_0000, default_bits: 0x3F00_0000, log: false, suffix: "Hz" }, ParamDef { name: "Depth", hash: 0x0000_00DB, min_bits: 0x0000_0000, max_bits: 0x3F80_0000, default_bits: 0x3F33_3333, log: false, suffix: "" }, ParamDef { name: "Feedback", hash: 0x0000_00DC, min_bits: 0x0000_0000, max_bits: 0x3F7D_70A4, default_bits: 0x3F33_3333, log: false, suffix: "" }],
        },
        NodeTemplate {
            name: "Phaser",
            category: "Effects",
            icon: "🌀",
            color: Rgba { r: 186, g: 104, b: 200, a: 255 },
            num_inputs: 1,
            num_outputs: 1,
            engine_type: NodeType::Filter,
            params: vec![ParamDef { name: "Rate", hash: 0x0000_00DD, min_bits: 0x3D4C_CCCD, max_bits: 0x40A0_0000, default_bits: 0x3E99_999A, log: false, suffix: "Hz" }, ParamDef { name: "Depth", hash: 0x0000_00DE, min_bits: 0x0000_0000, max_bits: 0x3F80_0000, default_bits: 0x3F19_999A, log: false, suffix: "" }, ParamDef { name: "Stages", hash: 0x0000_00DF, min_bits: 0x4000_0000, max_bits: 0x4140_0000, default_bits: 0x4080_0000, log: false, suffix: "" }],
        },
        NodeTemplate {
            name: "Distortion",
            category: "Effects",
            icon: "🔥",
            color: Rgba { r: 186, g: 104, b: 200, a: 255 },
            num_inputs: 1,
            num_outputs: 1,
            engine_type: NodeType::Gain,
            params: vec![ParamDef { name: "Drive", hash: 0x0000_00E1, min_bits: 0x0000_0000, max_bits: 0x4120_0000, default_bits: 0x4040_0000, log: false, suffix: "" }, ParamDef { name: "Tone", hash: 0x0000_00E2, min_bits: 0x0000_0000, max_bits: 0x3F80_0000, default_bits: 0x3F00_0000, log: false, suffix: "" }, ParamDef { name: "Mix", hash: 0x0000_00E3, min_bits: 0x0000_0000, max_bits: 0x3F80_0000, default_bits: 0x3F80_0000, log: false, suffix: "" }],
        },
        NodeTemplate {
            name: "Overdrive",
            category: "Effects",
            icon: "🎸",
            color: Rgba { r: 186, g: 104, b: 200, a: 255 },
            num_inputs: 1,
            num_outputs: 1,
            engine_type: NodeType::Gain,
            params: vec![ParamDef { name: "Drive", hash: 0x0000_00E4, min_bits: 0x0000_0000, max_bits: 0x4120_0000, default_bits: 0x4000_0000, log: false, suffix: "" }, ParamDef { name: "Tone", hash: 0x0000_00E5, min_bits: 0x0000_0000, max_bits: 0x3F80_0000, default_bits: 0x3F19_999A, log: false, suffix: "" }],
        },
        NodeTemplate {
            name: "Bitcrusher",
            category: "Effects",
            icon: "👾",
            color: Rgba { r: 186, g: 104, b: 200, a: 255 },
            num_inputs: 1,
            num_outputs: 1,
            engine_type: NodeType::Gain,
            params: vec![ParamDef { name: "Bits", hash: 0x0000_00E6, min_bits: 0x3F80_0000, max_bits: 0x4180_0000, default_bits: 0x4100_0000, log: false, suffix: "" }, ParamDef { name: "Downsample", hash: 0x0000_00E7, min_bits: 0x3F80_0000, max_bits: 0x4280_0000, default_bits: 0x3F80_0000, log: false, suffix: "x" }],
        },
        NodeTemplate {
            name: "Ring Modulator",
            category: "Effects",
            icon: "💍",
            color: Rgba { r: 186, g: 104, b: 200, a: 255 },
            num_inputs: 1,
            num_outputs: 1,
            engine_type: NodeType::Gain,
            params: vec![ParamDef { name: "Frequency", hash: 0x0000_00E8, min_bits: 0x3F80_0000, max_bits: 0x459C_4000, default_bits: 0x4348_0000, log: true, suffix: "Hz" }, ParamDef { name: "Mix", hash: 0x0000_00E9, min_bits: 0x0000_0000, max_bits: 0x3F80_0000, default_bits: 0x3F00_0000, log: false, suffix: "" }],
        },
        NodeTemplate {
            name: "Tremolo",
            category: "Effects",
            icon: "〰",
            color: Rgba { r: 186, g: 104, b: 200, a: 255 },
            num_inputs: 1,
            num_outputs: 1,
            engine_type: NodeType::Gain,
            params: vec![ParamDef { name: "Rate", hash: 0x0000_00EA, min_bits: 0x3DCC_CCCD, max_bits: 0x41A0_0000, default_bits: 0x40A0_0000, log: false, suffix: "Hz" }, ParamDef { name: "Depth", hash: 0x0000_00EB, min_bits: 0x0000_0000, max_bits: 0x3F80_0000, default_bits: 0x3F00_0000, log: false, suffix: "" }],
        },
        NodeTemplate {
            name: "Vibrato",
            category: "Effects",
            icon: "🎻",
            color: Rgba { r: 186, g: 104, b: 200, a: 255 },
            num_inputs: 1,
            num_outputs: 1,
            engine_type: NodeType::Filter,
            params: vec![ParamDef { name: "Rate", hash: 0x0000_00EC, min_bits: 0x3DCC_CCCD, max_bits: 0x41A0_0000, default_bits: 0x40A0_0000, log: false, suffix: "Hz" }, ParamDef { name: "Depth", hash: 0x0000_00ED, min_bits: 0x0000_0000, max_bits: 0x3F80_0000, default_bits: 0x3E99_999A, log: false, suffix: "" }],
        },
        NodeTemplate {
            name: "Waveshaper",
            category: "Effects",
            icon: "📈",
            color: Rgba { r: 186, g: 104, b: 200, a: 255 },
            num_inputs: 1,
            num_outputs: 1,
            engine_type: NodeType::Gain,
            params: vec![ParamDef { name: "Amount", hash: 0x0000_00EE, min_bits: 0x0000_0000, max_bits: 0x4120_0000, default_bits: 0x3F80_0000, log: false, suffix: "" }, ParamDef { name: "Symmetry", hash: 0x0000_00EF, min_bits: 0xBF80_0000, max_bits: 0x3F80_0000, default_bits: 0x0000_0000, log: false, suffix: "" }],
        },
        NodeTemplate {
            name: "Pitch Shifter",
            category: "Effects",
            icon: "🎼",
            color: Rgba { r: 186, g: 104, b: 200, a: 255 },
            num_inputs: 1,
            num_outputs: 1,
            engine_type: NodeType::Filter,
            params: vec![ParamDef { name: "Semitones", hash: 0x0000_00F0, min_bits: 0xC1C0_0000, max_bits: 0x41C0_0000, default_bits: 0x0000_0000, log: false, suffix: "st" }, ParamDef { name: "Mix", hash: 0x0000_00F1, min_bits: 0x0000_0000, max_bits: 0x3F80_0000, default_bits: 0x3F80_0000, log: false, suffix: "" }],
        },
        NodeTemplate {
            name: "Stereo Widener",
            category: "Effects",
            icon: "↔",
            color: Rgba { r: 186, g: 104, b: 200, a: 255 },
            num_inputs: 1,
            num_outputs: 1,
            engine_type: NodeType::Gain,
            params: vec![ParamDef { name: "Width", hash: 0x0000_00F2, min_bits: 0x0000_0000, max_bits: 0x4000_0000, default_bits: 0x3F80_0000, log: false, suffix: "" }],
        },
        NodeTemplate {
            name: "LFO Sine",
            category: "Modulators",
            icon: "🔄",
            color: Rgba { r: 255, g: 213, b: 79, a: 255 },
            num_inputs: 0,
            num_outputs: 1,
            engine_type: NodeType::Oscillator,
            params: vec![ParamDef { name: "Rate", hash: 0x811C_9DC5, min_bits: 0x3C23_D70A, max_bits: 0x4248_0000, default_bits: 0x3F80_0000, log: true, suffix: "Hz" }, ParamDef { name: "Depth", hash: 0x0000_0010, min_bits: 0x0000_0000, max_bits: 0x3F80_0000, default_bits: 0x3F80_0000, log: false, suffix: "" }],
        },
        NodeTemplate {
            name: "LFO Square",
            category: "Modulators",
            icon: "⬛",
            color: Rgba { r: 255, g: 213, b: 79, a: 255 },
            num_inputs: 0,
            num_outputs: 1,
            engine_type: NodeType::Oscillator,
            params: vec![ParamDef { name: "Rate", hash: 0x811C_9DC5, min_bits: 0x3C23_D70A, max_bits: 0x4248_0000, default_bits: 0x3F80_0000, log: true, suffix: "Hz" }, ParamDef { name: "Depth", hash: 0x0000_0011, min_bits: 0x0000_0000, max_bits: 0x3F80_0000, default_bits: 0x3F80_0000, log: false, suffix: "" }],
        },
        NodeTemplate {
            name: "LFO Triangle",
            category: "Modulators",
            icon: "🔺",
            color: Rgba { r: 255, g: 213, b: 79, a: 255 },
            num_inputs: 0,
            num_outputs: 1,
            engine_type: NodeType::Oscillator,
            params: vec![ParamDef { name: "Rate", hash: 0x811C_9DC5, min_bits: 0x3C23_D70A, max_bits: 0x4248_0000, default_bits: 0x3F80_0000, log: true, suffix: "Hz" }, ParamDef { name: "Depth", hash: 0x0000_0012, min_bits: 0x0000_0000, max_bits: 0x3F80_0000, default_bits: 0x3F80_0000, log: false, suffix: "" }],
        },
        NodeTemplate {
            name: "LFO Sample & Hold",
            category: "Modulators",
            icon: "🎲",
            color: Rgba { r: 255, g: 213, b: 79, a: 255 },
            num_inputs: 0,
            num_outputs: 1,
            engine_type: NodeType::Oscillator,
            params: vec![ParamDef { name: "Rate", hash: 0x811C_9DC5, min_bits: 0x3C23_D70A, max_bits: 0x4248_0000, default_bits: 0x4000_0000, log: true, suffix: "Hz" }, ParamDef { name: "Depth", hash: 0x0000_0013, min_bits: 0x0000_0000, max_bits: 0x3F80_0000, default_bits: 0x3F80_0000, log: false, suffix: "" }],
        },
        NodeTemplate {
            name: "ADSR Envelope",
            category: "Modulators",
            icon: "📉",
            color: Rgba { r: 255, g: 213, b: 79, a: 255 },
            num_inputs: 0,
            num_outputs: 1,
            engine_type: NodeType::Oscillator,
            params: vec![ParamDef { name: "Attack", hash: 0x0000_0014, min_bits: 0x3A83_126F, max_bits: 0x40A0_0000, default_bits: 0x3C23_D70A, log: true, suffix: "s" }, ParamDef { name: "Decay", hash: 0x0000_0015, min_bits: 0x3A83_126F, max_bits: 0x40A0_0000, default_bits: 0x3DCC_CCCD, log: true, suffix: "s" }, ParamDef { name: "Sustain", hash: 0x0000_0016, min_bits: 0x0000_0000, max_bits: 0x3F80_0000, default_bits: 0x3F33_3333, log: false, suffix: "" }, ParamDef { name: "Release", hash: 0x0000_0017, min_bits: 0x3A83_126F, max_bits: 0x4120_0000, default_bits: 0x3E99_999A, log: true, suffix: "s" }],
        },
        NodeTemplate {
            name: "AR Envelope",
            category: "Modulators",
            icon: "📈",
            color: Rgba { r: 255, g: 213, b: 79, a: 255 },
            num_inputs: 0,
            num_outputs: 1,
            engine_type: NodeType::Oscillator,
            params: vec![ParamDef { name: "Attack", hash: 0x0000_0018, min_bits: 0x3A83_126F, max_bits: 0x40A0_0000, default_bits: 0x3C23_D70A, log: true, suffix: "s" }, ParamDef { name: "Release", hash: 0x0000_0019, min_bits: 0x3A83_126F, max_bits: 0x4120_0000, default_bits: 0x3E99_999A, log: true, suffix: "s" }],
        },
        NodeTemplate {
            name: "Mixer 2-Ch",
            category: "Utility",
            icon: "🎛",
            color: Rgba { r: 176, g: 190, b: 197, a: 255 },
            num_inputs: 2,
            num_outputs: 1,
            engine_type: NodeType::Gain,
            params: vec![ParamDef { name: "Ch A", hash: 0x0000_0020, min_bits: 0x0000_0000, max_bits: 0x4000_0000, default_bits: 0x3F80_0000, log: false, suffix: "" }, ParamDef { name: "Ch B", hash: 0x0000_0021, min_bits: 0x0000_0000, max_bits: 0x4000_0000, default_bits: 0x3F80_0000, log: false, suffix: "" }],
        },
        NodeTemplate {
            name: "Crossfade",
            category: "Utility",
            icon: "🔀",
            color: Rgba { r: 176, g: 190, b: 197, a: 255 },
            num_inputs: 2,
            num_outputs: 1,
            engine_type: NodeType::Gain,
            params: vec![ParamDef { name: "Mix", hash: 0x0000_0022, min_bits: 0x0000_0000, max_bits: 0x3F80_0000, default_bits: 0x3F00_0000, log: false, suffix: "" }],
        },
        NodeTemplate {
            name: "Constant",
            category: "Utility",
            icon: "🔢",
            color: Rgba { r: 176, g: 190, b: 197, a: 255 },
            num_inputs: 0,
            num_outputs: 1,
            engine_type: NodeType::Oscillator,
            params: vec![ParamDef { name: "Value", hash: 0x811C_9DC5, min_bits: 0x0000_0000, max_bits: 0x4120_0000, default_bits: 0x3F80_0000, log: false, suffix: "" }],
        },
        NodeTemplate {
            name: "DC Offset",
            category: "Utility",
            icon: "➡",
            color: Rgba { r: 176, g: 190, b: 197, a: 255 },
            num_inputs: 1,
            num_outputs: 1,
            engine_type: NodeType::Gain,
            params: vec![ParamDef { name: "Offset", hash: 0x0000_0023, min_bits: 0xBF80_0000, max_bits: 0x3F80_0000, default_bits: 0x0000_0000, log: false, suffix: "" }],
        },
        NodeTemplate {
            name: "Inverter",
            category: "Utility",
            icon: "🔃",
            color: Rgba { r: 176, g: 190, b: 197, a: 255 },
            num_inputs: 1,
            num_outputs: 1,
            engine_type: NodeType::Gain,
            params: vec![],
        },
        NodeTemplate {
            name: "Splitter",
            category: "Utility",
            icon: "🔱",
            color: Rgba { r: 176, g: 190, b: 197, a: 255 },
            num_inputs: 1,
            num_outputs: 2,
            engine_type: NodeType::Gain,
            params: vec![],
        },
        NodeTemplate {
            name: "Speaker Output",
            category: "Output",
            icon: "🎧",
            color: Rgba { r: 200, g: 200, b: 200, a: 255 },
            num_inputs: 1,
            num_outputs: 0,
            engine_type: NodeType::Output,
            params: vec![],
        },
    ];
    c
}

/// `i` is the first position of the table whose template is named `name`.
pub open spec fn first_named(table: Seq<TemplateRow>, name: Seq<char>, i: int) -> bool {
    &&& 0 <= i < table.len()
    &&& table[i].0 == name
    &&& forall|k: int| 0 <= k < i ==> (#[trigger] table[k]).0 != name
}

/// The position of the first template named `name`, or `fallback` when no
/// template has that name.
pub open spec fn position_or(table: Seq<TemplateRow>, name: Seq<char>, fallback: int) -> int {
    if exists|i: int| #[trigger] first_named(table, name, i) {
        choose|i: int| #[trigger] first_named(table, name, i)
    } else {
        fallback
    }
}

/// The position of the first template of `cat` named `name`.
pub fn template_position(cat: &Vec<NodeTemplate>, name: &str) -> (r: Option<usize>)
    ensures
        match r {
            Some(i) => first_named(rows_of(cat@), name@, i as int),
            None => forall|i: int| !#[trigger] first_named(rows_of(cat@), name@, i),
        },
{
    let ghost rows = rows_of(cat@);
    let mut i: usize = 0;
    while i < cat.len()
        invariant
            i <= cat@.len(),
            rows == rows_of(cat@),
            forall|k: int| 0 <= k < i ==> (#[trigger] rows[k]).0 != name@,
        decreases cat@.len() - i,
    {
        if same_text(cat[i].name, name) {
            return Some(i);
        }
        i = i + 1;
    }
    proof {
        assert forall|j: int| !#[trigger] first_named(rows, name@, j) by {
            if first_named(rows, name@, j) {
                assert(rows[j].0 != name@);
            }
        }
    }
    None
}

/// Two first positions of one name are the same.
pub proof fn lemma_first_named_unique(table: Seq<TemplateRow>, name: Seq<char>, i: int, j: int)
    requires
        first_named(table, name, i),
        first_named(table, name, j),
    ensures
        i == j,
{
    if i < j {
        assert(table[i].0 != name);
    } else if j < i {
        assert(table[j].0 != name);
    }
}

} // verus!
