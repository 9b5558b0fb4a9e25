use joduga::ffi::NodeType;

#[test]
fn node_type_repr() {
    assert_eq!(NodeType::Oscillator as i32, 0);
    assert_eq!(NodeType::Filter as i32, 1);
    assert_eq!(NodeType::Gain as i32, 2);
    assert_eq!(NodeType::Output as i32, 3);
    assert_eq!(NodeType::Delay as i32, 4);
    assert_eq!(NodeType::Effects as i32, 5);
}

#[test]
fn reverb_follows_effects() {
    assert_eq!(NodeType::Reverb as i32, 6);
}
