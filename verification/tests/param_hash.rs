use joduga::param_hash::{
    AM_MOD_DEPTH, AM_MOD_FREQ, ATTACK, COMB_DELAY, COMB_FEEDBACK, DELAY_FEEDBACK, DELAY_MODE,
    DELAY_TIME, DEPTH, DETUNE, DRIVE, DUTY_CYCLE, DYN_KNEE, DYN_MAKEUP, EFFECTS_MODE,
    FILTER_CUTOFF, FILTER_MODE, FILTER_RESONANCE, FM_MOD_DEPTH, FM_MOD_FREQ, FREQ, GAIN_LEVEL,
    GAIN_MODE, MIX, OSC_FREQUENCY, PARAMETRIC_Q, RATIO, RELEASE, RES, THRESHOLD, TONE,
    WAVEFORM_TYPE,
};

/// Canonical values of the engine's parameter-key table.
#[test]
fn cpp_param_hash_constants_match_cpp() {
    // Primary
    assert_eq!(FREQ, 0x811C_9DC5);
    assert_eq!(RES, 0x050C_5D2E);
    // Aliases
    assert_eq!(OSC_FREQUENCY, FREQ);
    assert_eq!(FILTER_CUTOFF, FREQ);
    assert_eq!(FILTER_RESONANCE, RES);
    assert_eq!(GAIN_LEVEL, FREQ);
    // Sub-type selectors
    assert_eq!(WAVEFORM_TYPE, 0xAD);
    assert_eq!(FILTER_MODE, 0xBD);
    // Oscillator
    assert_eq!(DUTY_CYCLE, 0xA1);
    assert_eq!(FM_MOD_DEPTH, 0xA3);
    assert_eq!(FM_MOD_FREQ, 0xA4);
    assert_eq!(AM_MOD_DEPTH, 0xA5);
    assert_eq!(AM_MOD_FREQ, 0xA6);
    assert_eq!(DETUNE, 0xA9);
    // Filter
    assert_eq!(COMB_DELAY, 0xB1);
    assert_eq!(COMB_FEEDBACK, 0xB2);
    assert_eq!(PARAMETRIC_Q, 0xB7);
    // Dynamics
    assert_eq!(THRESHOLD, 0xC0);
    assert_eq!(RATIO, 0xC1);
    assert_eq!(ATTACK, 0xC2);
    assert_eq!(RELEASE, 0xC3);
    assert_eq!(DYN_KNEE, 0xC4);
    assert_eq!(DYN_MAKEUP, 0xC5);
    // Modes
    assert_eq!(GAIN_MODE, 0xCF);
    assert_eq!(DELAY_MODE, 0xCD);
    assert_eq!(EFFECTS_MODE, 0xCE);
    // Effects
    assert_eq!(DELAY_TIME, 0xD1);
    assert_eq!(DELAY_FEEDBACK, 0xD2);
    assert_eq!(MIX, 0xD3);
    assert_eq!(DRIVE, 0xE1);
    assert_eq!(TONE, 0xE2);
    // Modulator
    assert_eq!(DEPTH, 0x10);
}

/// Selectors must occupy hash slots disjoint from the data parameters of
/// the same node type.
#[test]
fn no_collisions_within_a_node() {
    // Oscillator: freq + selector + extras
    let osc = [
        OSC_FREQUENCY,
        WAVEFORM_TYPE,
        DUTY_CYCLE,
        FM_MOD_DEPTH,
        FM_MOD_FREQ,
        AM_MOD_DEPTH,
        AM_MOD_FREQ,
        DETUNE,
    ];
    assert_unique(&osc, "oscillator");

    // Filter: cutoff/res + selector + extras
    let filt =
        [FILTER_CUTOFF, FILTER_RESONANCE, FILTER_MODE, COMB_DELAY, COMB_FEEDBACK, PARAMETRIC_Q];
    assert_unique(&filt, "filter");

    // Effects: mode selector + dynamics + delay-line + drive/tone
    let fx = [
        EFFECTS_MODE,
        THRESHOLD,
        RATIO,
        ATTACK,
        RELEASE,
        DYN_KNEE,
        DYN_MAKEUP,
        DELAY_TIME,
        DELAY_FEEDBACK,
        MIX,
        DRIVE,
        TONE,
    ];
    assert_unique(&fx, "effects");
}

fn assert_unique(slice: &[u32], label: &str) {
    let mut sorted: Vec<u32> = slice.to_vec();
    sorted.sort_unstable();
    for w in sorted.windows(2) {
        assert!(w[0] != w[1], "{label}: duplicate hash 0x{:08X}", w[0]);
    }
}
