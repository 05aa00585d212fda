use mfp::duration::{
    get_progress_bar_progress_info, humanize_seconds_to_hours_minutes_and_seconds, parse_duration,
};

#[test]
fn parse_duration_reads_hours_minutes_seconds() {
    assert_eq!(parse_duration("01:02:03"), Some(3723));
}

#[test]
fn parse_duration_long_mix() {
    assert_eq!(parse_duration("1:23:45"), Some(5025));
}

#[test]
fn parse_duration_fields_need_not_be_padded_or_bounded() {
    assert_eq!(parse_duration("0:90:0"), Some(5400));
    assert_eq!(parse_duration("+1:+0:+5"), Some(3605));
}

#[test]
fn parse_duration_other_field_counts_give_zero() {
    assert_eq!(parse_duration("62:15"), Some(0));
    assert_eq!(parse_duration("3723"), Some(0));
    assert_eq!(parse_duration(""), Some(0));
    assert_eq!(parse_duration("1:2:3:4"), Some(0));
}

#[test]
fn parse_duration_bad_field_gives_none() {
    assert_eq!(parse_duration("aa:bb:cc"), None);
    assert_eq!(parse_duration("01: 02:03"), None);
    assert_eq!(parse_duration("::"), None);
    assert_eq!(parse_duration("-1:00:00"), None);
    assert_eq!(parse_duration("+:00:00"), None);
}

#[test]
fn parse_duration_field_overflow_gives_none() {
    assert_eq!(parse_duration("18446744073709551616:0:0"), None);
    assert_eq!(parse_duration("0:0:18446744073709551615"), Some(u64::MAX));
}

#[test]
fn parse_duration_total_wraps() {
    // 5124095576030432 hours and 61 seconds exceed u64::MAX seconds; the sum wraps.
    assert_eq!(parse_duration("5124095576030432:1:1"), Some(3645));
}

#[test]
fn humanize_pads_fields() {
    assert_eq!(humanize_seconds_to_hours_minutes_and_seconds(3723), "01:02:03");
    assert_eq!(humanize_seconds_to_hours_minutes_and_seconds(0), "00:00:00");
    assert_eq!(humanize_seconds_to_hours_minutes_and_seconds(59), "00:00:59");
    assert_eq!(humanize_seconds_to_hours_minutes_and_seconds(3599), "00:59:59");
}

#[test]
fn humanize_hours_grow_beyond_two_digits() {
    assert_eq!(humanize_seconds_to_hours_minutes_and_seconds(360000), "100:00:00");
    assert_eq!(
        humanize_seconds_to_hours_minutes_and_seconds(u64::MAX),
        "5124095576030431:00:15"
    );
}

#[test]
fn humanize_then_parse_round_trip() {
    for n in [0u64, 1, 59, 60, 61, 3599, 3600, 3723, 86399, 360000, u64::MAX] {
        let text = humanize_seconds_to_hours_minutes_and_seconds(n);
        assert_eq!(parse_duration(&text), Some(n));
    }
}

#[test]
fn progress_info_with_total() {
    assert_eq!(get_progress_bar_progress_info(61, Some(3600)), "00:01:01 / 01:00:00");
}

#[test]
fn progress_info_without_total() {
    assert_eq!(get_progress_bar_progress_info(61, None), "00:01:01");
    assert_eq!(get_progress_bar_progress_info(61, Some(u64::MAX)), "00:01:01");
}
