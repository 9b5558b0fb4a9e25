//! Parameter keys understood by the DSP engine. A parameter update names
//! its destination by one of these `u32` keys; they must stay numerically
//! identical to the engine's own table.

use vstd::prelude::*;

verus! {

// Primary shared keys.
/// Generic frequency-style parameter: oscillator frequency, filter cutoff,
/// gain level, threshold. Reused across node types because dispatch is per
/// node.
pub const FREQ: u32 = 0x811C_9DC5;

/// Generic resonance / Q / bandwidth.
pub const RES: u32 = 0x050C_5D2E;

// Per-type aliases.
pub const OSC_FREQUENCY: u32 = FREQ;

pub const FILTER_CUTOFF: u32 = FREQ;

pub const FILTER_RESONANCE: u32 = RES;

pub const GAIN_LEVEL: u32 = FREQ;

// Sub-type selectors.
pub const WAVEFORM_TYPE: u32 = 0x0000_00AD;

pub const FILTER_MODE: u32 = 0x0000_00BD;

// Oscillator extras.
pub const DUTY_CYCLE: u32 = 0xA1;

pub const FM_MOD_DEPTH: u32 = 0xA3;

pub const FM_MOD_FREQ: u32 = 0xA4;

pub const AM_MOD_DEPTH: u32 = 0xA5;

pub const AM_MOD_FREQ: u32 = 0xA6;

pub const DETUNE: u32 = 0xA9;

// Filter extras.
pub const COMB_DELAY: u32 = 0xB1;

pub const COMB_FEEDBACK: u32 = 0xB2;

pub const PARAMETRIC_Q: u32 = 0xB7;

// Dynamics extras.
pub const THRESHOLD: u32 = 0xC0;

pub const RATIO: u32 = 0xC1;

pub const ATTACK: u32 = 0xC2;

pub const RELEASE: u32 = 0xC3;

pub const DYN_KNEE: u32 = 0xC4;

pub const DYN_MAKEUP: u32 = 0xC5;

// Sub-type selectors (gain, delay, effects).
pub const GAIN_MODE: u32 = 0xCF;

pub const DELAY_MODE: u32 = 0xCD;

pub const EFFECTS_MODE: u32 = 0xCE;

// Effects extras.
pub const DELAY_TIME: u32 = 0xD1;

pub const DELAY_FEEDBACK: u32 = 0xD2;

pub const MIX: u32 = 0xD3;

pub const DRIVE: u32 = 0xE1;

pub const TONE: u32 = 0xE2;

// Modulator extras.
pub const DEPTH: u32 = 0x10;

} // verus!
