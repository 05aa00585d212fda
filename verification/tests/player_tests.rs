use mfp::player::{
    bytes_per_sec, range_header, segment_elapsed_secs, volume_label, KeyCode, KeyInput, Playback,
    PlaybackResult, PlayerAction,
};

const SEC: u128 = 1_000_000_000;

fn press(code: KeyCode) -> KeyInput {
    KeyInput { code, press: true, control: false }
}

fn ch(c: char) -> KeyInput {
    press(KeyCode::Char(c))
}

#[test]
fn segment_elapsed_counts_whole_seconds_without_pauses() {
    assert_eq!(segment_elapsed_secs(0, None, 0, 12 * SEC + 999), 12);
    assert_eq!(segment_elapsed_secs(5 * SEC, None, 2 * SEC, 20 * SEC), 13);
    assert_eq!(segment_elapsed_secs(0, Some(7 * SEC), SEC, 100 * SEC), 6);
    assert_eq!(segment_elapsed_secs(10 * SEC, None, 0, 3 * SEC), 0);
}

#[test]
fn bytes_per_sec_needs_duration_and_size() {
    assert_eq!(bytes_per_sec(100, 16_000), 160);
    assert_eq!(bytes_per_sec(0, 16_000), 0);
    assert_eq!(bytes_per_sec(100, 0), 0);
    assert_eq!(bytes_per_sec(3, 10), 3);
}

#[test]
fn labels() {
    assert_eq!(volume_label(7), "[VOL 7/9]");
    assert_eq!(volume_label(0), "[VOL 0/9]");
    assert_eq!(range_header(0), None);
    assert_eq!(range_header(4096).as_deref(), Some("bytes=4096-"));
}

#[test]
fn display_position_is_capped_at_duration() {
    let p = Playback::new(60, 6000, 9, 0);
    assert_eq!(p.display_position(30 * SEC), 30);
    assert_eq!(p.display_position(90 * SEC), 60);
}

#[test]
fn pause_time_does_not_count() {
    let mut p = Playback::new(600, 60_000, 9, 0);
    assert_eq!(p.handle_key(ch(' '), 10 * SEC), PlayerAction::Pause);
    assert!(p.is_paused());
    assert_eq!(p.display_position(50 * SEC), 10);
    assert_eq!(p.handle_key(ch(' '), 50 * SEC), PlayerAction::Resume);
    assert!(!p.is_paused());
    assert_eq!(p.display_position(55 * SEC), 15);
}

#[test]
fn quit_keys_stop() {
    let mut p = Playback::new(600, 60_000, 9, 0);
    assert_eq!(p.handle_key(ch('q'), SEC), PlayerAction::Stop);
    let ctrl_c = KeyInput { code: KeyCode::Char('c'), press: true, control: true };
    assert_eq!(p.handle_key(ctrl_c, SEC), PlayerAction::Stop);
    assert_eq!(p.handle_key(ch('c'), SEC), PlayerAction::Nothing);
}

#[test]
fn releases_are_ignored() {
    let mut p = Playback::new(600, 60_000, 9, 0);
    let release = KeyInput { code: KeyCode::Char('q'), press: false, control: false };
    assert_eq!(p.handle_key(release, SEC), PlayerAction::Nothing);
}

#[test]
fn seek_forward_and_back() {
    let mut p = Playback::new(600, 60_000, 9, 0);
    assert_eq!(
        p.handle_key(press(KeyCode::Right), 20 * SEC),
        PlayerAction::SeekTo { position_secs: 30, byte_offset: 3000 }
    );
    p.seek_succeeded(30, 20 * SEC);
    assert_eq!(p.display_position(25 * SEC), 35);
    assert_eq!(
        p.handle_key(ch('h'), 25 * SEC),
        PlayerAction::SeekTo { position_secs: 25, byte_offset: 2500 }
    );
    assert_eq!(
        p.handle_key(ch('l'), 25 * SEC),
        PlayerAction::SeekTo { position_secs: 45, byte_offset: 4500 }
    );
}

#[test]
fn seek_back_stops_at_start() {
    let mut p = Playback::new(600, 60_000, 9, 0);
    assert_eq!(
        p.handle_key(press(KeyCode::Left), 4 * SEC),
        PlayerAction::SeekTo { position_secs: 0, byte_offset: 0 }
    );
}

#[test]
fn seek_forward_past_end_ends_track() {
    let mut p = Playback::new(60, 6000, 9, 0);
    assert_eq!(p.handle_key(press(KeyCode::Right), 55 * SEC), PlayerAction::EndTrack);
}

#[test]
fn seek_disabled_without_size() {
    let mut p = Playback::new(60, 0, 9, 0);
    assert!(!p.seek_enabled());
    assert_eq!(p.handle_key(press(KeyCode::Right), SEC), PlayerAction::Nothing);
    assert_eq!(p.handle_key(ch('h'), SEC), PlayerAction::Nothing);
}

#[test]
fn volume_keys_stay_in_range() {
    let mut p = Playback::new(60, 6000, 9, 0);
    assert_eq!(p.handle_key(ch('+'), SEC), PlayerAction::Nothing);
    assert_eq!(p.handle_key(ch('-'), SEC), PlayerAction::SetVolume(8));
    assert_eq!(p.handle_key(ch('='), SEC), PlayerAction::SetVolume(9));
    let mut q = Playback::new(60, 6000, 0, 0);
    assert_eq!(q.handle_key(ch('_'), SEC), PlayerAction::Nothing);
    assert_eq!(q.handle_key(ch('+'), SEC), PlayerAction::SetVolume(1));
    assert_eq!(q.volume, 1);
}

#[test]
fn other_keys_do_nothing() {
    let mut p = Playback::new(60, 6000, 5, 0);
    assert_eq!(p.handle_key(press(KeyCode::Other), SEC), PlayerAction::Nothing);
    assert_eq!(p.handle_key(ch('x'), SEC), PlayerAction::Nothing);
}

#[test]
fn clock_consistency() {
    let p = Playback::new(60, 6000, 5, 10 * SEC);
    assert!(p.clock_is_consistent(10 * SEC));
    assert!(!p.clock_is_consistent(SEC));
}

#[test]
fn playback_results_differ() {
    assert_ne!(PlaybackResult::Finished, PlaybackResult::Quit);
}
