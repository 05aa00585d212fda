use mfp::args::{Args, Selection};

#[test]
fn volume_range() {
    assert!(Args { track_number: None, volume: 0 }.volume_is_valid());
    assert!(Args { track_number: None, volume: 9 }.volume_is_valid());
    assert!(!Args { track_number: None, volume: 10 }.volume_is_valid());
}

#[test]
fn selection() {
    assert_eq!(Args { track_number: None, volume: 9 }.select(68), Selection::Shuffle);
    assert_eq!(Args { track_number: Some(1), volume: 9 }.select(68), Selection::Track(67));
    assert_eq!(Args { track_number: Some(68), volume: 9 }.select(68), Selection::Track(0));
    assert_eq!(Args { track_number: Some(69), volume: 9 }.select(68), Selection::NoSuchTrack(69));
    assert_eq!(Args { track_number: Some(0), volume: 9 }.select(68), Selection::NoSuchTrack(0));
}
