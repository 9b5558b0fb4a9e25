use joduga::frames::{fan_out, frame_count};

#[test]
fn frame_count_divides_by_channels() {
    assert_eq!(frame_count(512, 2), 256);
    assert_eq!(frame_count(7, 2), 3);
    assert_eq!(frame_count(7, 0), 7);
    assert_eq!(frame_count(0, 6), 0);
}

#[test]
fn fan_out_copies_each_sample_to_every_channel_then_silence() {
    let mono = [0.25f32, -0.5, 1.0];
    let mut out = [9.0f32; 8];
    fan_out(&mono, 2, 3, 0.0, &mut out);
    assert_eq!(out, [0.25, 0.25, 0.25, -0.5, -0.5, -0.5, 0.0, 0.0]);
}

#[test]
fn fan_out_mono_device_is_a_copy() {
    let mono = [1u32, 2, 3, 4];
    let mut out = [7u32; 4];
    fan_out(&mono, 4, 1, 0, &mut out);
    assert_eq!(out, [1, 2, 3, 4]);
}

#[test]
fn fan_out_underrun_is_all_silence() {
    let mono = [5i16; 4];
    let mut out = [3i16; 8];
    fan_out(&mono, 0, 2, 0, &mut out);
    assert_eq!(out, [0; 8]);
}
