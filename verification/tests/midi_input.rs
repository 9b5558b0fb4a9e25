use joduga::midi_input::{choose_port, parse, text_contains, MidiStatus};

#[test]
fn parse_note_on_with_velocity_zero_is_note_off() {
    // The single most common MIDI quirk: keyboards emit
    // 0x90 pitch 0x00 instead of 0x80 pitch vel for note-off.
    let cmd = parse(&[0x90, 60, 0]).expect("must parse");
    assert_eq!(cmd.event_type, MidiStatus::NoteOff.as_u32());
    assert_eq!(cmd.pitch, 60);
    assert_eq!(cmd.velocity, 0);
}

#[test]
fn parse_real_note_on_kept_as_note_on() {
    let cmd = parse(&[0x90, 64, 100]).expect("must parse");
    assert_eq!(cmd.event_type, MidiStatus::NoteOn.as_u32());
    assert_eq!(cmd.pitch, 64);
    assert_eq!(cmd.velocity, 100);
}

#[test]
fn parse_note_off_kept_as_note_off() {
    let cmd = parse(&[0x80, 64, 50]).expect("must parse");
    assert_eq!(cmd.event_type, MidiStatus::NoteOff.as_u32());
}

#[test]
fn parse_control_change() {
    let cmd = parse(&[0xB1, 7, 100]).expect("must parse");
    assert_eq!(cmd.event_type, MidiStatus::ControlChange.as_u32());
    assert_eq!(cmd.pitch, 7);
    assert_eq!(cmd.velocity, 100);
}

#[test]
fn parse_pitch_bend_packs_14_bits_lsb_first() {
    // MIDI pitch bend: data1 = LSB (7 bits), data2 = MSB (7 bits).
    // Center = 8192 = 0x2000 → MSB=0x40, LSB=0x00.
    let cmd = parse(&[0xE0, 0x00, 0x40]).expect("must parse");
    assert_eq!(cmd.event_type, MidiStatus::PitchBend.as_u32());
    assert_eq!(cmd.pitch, 8192);
}

#[test]
fn parse_empty_message_returns_none() {
    assert!(parse(&[]).is_none());
}

#[test]
fn parse_truncated_note_on_returns_none() {
    // 0x90 needs 2 data bytes; only 1 supplied.
    assert!(parse(&[0x90, 60]).is_none());
}

#[test]
fn parse_sysex_returns_none() {
    // 0xF0 is system exclusive; it is ignored.
    assert!(parse(&[0xF0, 0x7E, 0x7F]).is_none());
}

#[test]
fn parse_strips_high_bit_on_malformed_data_bytes() {
    // Data bytes with bit 7 set are out of spec; they must not smear into
    // the queued pitch/velocity value.
    let cmd = parse(&[0x90, 0xFF, 0xFF]).expect("must parse");
    assert_eq!(cmd.event_type, MidiStatus::NoteOn.as_u32());
    assert_eq!(cmd.pitch, 0x7F);
    assert_eq!(cmd.velocity, 0x7F);

    // Pitch bend with both data bytes high-bit set: must mask rather than
    // letting LSB|MSB-shifted bits collide.
    let cmd = parse(&[0xE0, 0xFF, 0xFF]).expect("must parse");
    assert_eq!(cmd.event_type, MidiStatus::PitchBend.as_u32());
    assert_eq!(cmd.pitch, (0x7F << 7) | 0x7F);
}

#[test]
fn parse_strips_channel_nibble() {
    // 0x95 = NoteOn channel 5; status nibble 0x90 should match.
    let cmd = parse(&[0x95, 60, 80]).expect("channel 5 NoteOn");
    assert_eq!(cmd.event_type, MidiStatus::NoteOn.as_u32());
}

#[test]
fn midi_status_codes() {
    assert_eq!(MidiStatus::NoteOff.as_u32(), 0x80);
    assert_eq!(MidiStatus::NoteOn.as_u32(), 0x90);
    assert_eq!(MidiStatus::ControlChange.as_u32(), 0xB0);
    assert_eq!(MidiStatus::PitchBend.as_u32(), 0xE0);
}

#[test]
fn parse_ignores_extra_bytes_and_keeps_timestamp_zero() {
    let cmd = parse(&[0x83, 10, 20, 99, 98]).expect("note off with trailing bytes");
    assert_eq!(cmd.event_type, 0x80);
    assert_eq!(cmd.pitch, 10);
    assert_eq!(cmd.velocity, 20);
    assert_eq!(cmd.timestamp_samples, 0);
}

#[test]
fn parse_pitch_bend_extremes_and_velocity_zero() {
    let cmd = parse(&[0xEF, 0x7F, 0x7F]).expect("max bend");
    assert_eq!(cmd.pitch, 16383);
    assert_eq!(cmd.velocity, 0);
    let cmd = parse(&[0xE0, 0x01, 0x00]).expect("min bend + 1");
    assert_eq!(cmd.pitch, 1);
}

#[test]
fn parse_unsupported_status_kinds_return_none() {
    // Channel pressure, program change, poly aftertouch are not forwarded.
    assert!(parse(&[0xD0, 10, 10]).is_none());
    assert!(parse(&[0xC0, 10, 10]).is_none());
    assert!(parse(&[0xA0, 10, 10]).is_none());
    // A lone status byte.
    assert!(parse(&[0x90]).is_none());
    // Control change needs both data bytes too.
    assert!(parse(&[0xB0, 7]).is_none());
}

fn names(list: &[Option<&str>]) -> Vec<Option<String>> {
    list.iter().map(|n| n.map(String::from)).collect()
}

#[test]
fn choose_port_without_ports_opens_nothing() {
    assert_eq!(choose_port(&[], None), Ok(None));
    assert_eq!(choose_port(&[], Some("Keystation")), Ok(None));
}

#[test]
fn choose_port_defaults_to_first() {
    let ports = names(&[Some("Midi Through"), Some("Keystation 49")]);
    assert_eq!(choose_port(&ports, None), Ok(Some(0)));
}

#[test]
fn choose_port_takes_first_name_holding_the_wanted_text() {
    let ports = names(&[None, Some("Midi Through"), Some("Keystation 49 MIDI 1"), Some("Keystation 61")]);
    assert_eq!(choose_port(&ports, Some("Keystation")), Ok(Some(2)));
    assert_eq!(choose_port(&ports, Some("61")), Ok(Some(3)));
    // Every readable name holds the empty text.
    assert_eq!(choose_port(&ports, Some("")), Ok(Some(1)));
}

#[test]
fn choose_port_refuses_unknown_name() {
    let ports = names(&[Some("Midi Through"), None]);
    assert_eq!(
        choose_port(&ports, Some("Launchpad")),
        Err("MIDI port containing 'Launchpad' not found".to_string())
    );
}

#[test]
fn text_contains_matches_runs_of_characters() {
    assert!(text_contains("Keystation 49", "station"));
    assert!(text_contains("Keystation", "Keystation"));
    assert!(text_contains("abc", ""));
    assert!(!text_contains("Keystation", "keystation"));
    assert!(!text_contains("ab", "abc"));
    assert!(text_contains("Ünïcødé port", "cødé"));
    assert!(!text_contains("aab", "abb"));
}
