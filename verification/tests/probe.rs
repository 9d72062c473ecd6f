use sinatra::domain::av::av::{segment_boundaries, segment_durations};
use sinatra::domain::av::probe::{
    first_keyframe_time, get_segments, match_number, parse_seconds, NumberMatch,
};

#[test]
fn frame_listing_gives_one_time_per_frame() {
    let output = b"[FRAME]\nmedia_type=video\nkey_frame=1\npts=0\npts_time=0.000000\n[/FRAME]\n\
[FRAME]\nmedia_type=video\nkey_frame=1\npts=48048\npts_time=4.004000\n[/FRAME]\n\
[FRAME]\npts_time=8.008000\r\n[/FRAME]";
    assert_eq!(get_segments(output), vec![0, 4_004_000, 8_008_000]);
}

#[test]
fn listing_without_entries_gives_nothing() {
    assert_eq!(get_segments(b""), Vec::<u64>::new());
    assert_eq!(get_segments(b"\n\n\n"), Vec::<u64>::new());
    assert_eq!(get_segments(b"pts_time=N/A\npts_time=12\npts_time=.5\npts_time=3.\n"), Vec::<u64>::new());
    assert_eq!(get_segments(b"pts_time\n=1.5\n"), Vec::<u64>::new());
}

#[test]
fn only_the_first_entry_of_a_line_counts() {
    assert_eq!(get_segments(b"pts_time=1.5 pts_time=2.5\npts_time=3.25"), vec![1_500_000, 3_250_000]);
    assert_eq!(get_segments(b"pts_time=x pkt_pts_time=2.5|pts_time=9.0"), vec![2_500_000]);
    assert_eq!(first_keyframe_time(b"pts_time=pts_time=7.000001"), Some(7_000_001));
    assert_eq!(first_keyframe_time(b"pts_time=7"), None);
    assert_eq!(first_keyframe_time(b"time=7.5"), None);
    assert_eq!(first_keyframe_time(b"pts_time="), None);
}

#[test]
fn decimals_past_the_sixth_are_dropped() {
    assert_eq!(first_keyframe_time(b"pts_time=1.23456789"), Some(1_234_567));
    assert_eq!(first_keyframe_time(b"pts_time=1.5"), Some(1_500_000));
    assert_eq!(first_keyframe_time(b"pts_time=0010.000001"), Some(10_000_001));
    assert_eq!(first_keyframe_time(b"pts_time=1.2.3"), Some(1_200_000));
}

#[test]
fn times_too_large_for_microseconds_are_left_out() {
    assert_eq!(match_number(b"18446744073709.551615", 0), NumberMatch::Micros(u64::MAX));
    assert_eq!(match_number(b"18446744073709.551616", 0), NumberMatch::TooLarge);
    assert_eq!(match_number(b"18446744073710.0", 0), NumberMatch::TooLarge);
    assert_eq!(match_number(b"99999999999999999999999.0", 0), NumberMatch::TooLarge);
    assert_eq!(get_segments(b"pts_time=99999999999999999999999.0\npts_time=1.0\n"), vec![1_000_000]);
}

#[test]
fn number_matches() {
    assert_eq!(match_number(b"10.5", 0), NumberMatch::Micros(10_500_000));
    assert_eq!(match_number(b"x10.5y", 1), NumberMatch::Micros(10_500_000));
    assert_eq!(match_number(b"x10.5y", 2), NumberMatch::Micros(500_000));
    assert_eq!(match_number(b"x10.5y", 0), NumberMatch::NoMatch);
    assert_eq!(match_number(b"10", 0), NumberMatch::NoMatch);
    assert_eq!(match_number(b"10.", 0), NumberMatch::NoMatch);
    assert_eq!(match_number(b"10.x", 0), NumberMatch::NoMatch);
    assert_eq!(match_number(b".5", 0), NumberMatch::NoMatch);
    assert_eq!(match_number(b"", 0), NumberMatch::NoMatch);
    assert_eq!(match_number(b"1.5", 3), NumberMatch::NoMatch);
}

#[test]
fn plain_seconds() {
    assert_eq!(parse_seconds(b"10.500000\n"), Some(10_500_000));
    assert_eq!(parse_seconds(b"10.500000"), Some(10_500_000));
    assert_eq!(parse_seconds(b"3.0\r\n"), Some(3_000_000));
    assert_eq!(parse_seconds(b"0.05"), Some(50_000));
    assert_eq!(parse_seconds(b"10.5 s"), None);
    assert_eq!(parse_seconds(b" 10.5"), None);
    assert_eq!(parse_seconds(b"N/A\n"), None);
    assert_eq!(parse_seconds(b""), None);
    assert_eq!(parse_seconds(b"99999999999999999999999.0"), None);
}

#[test]
fn probe_output_to_schedule() {
    let keyframes = get_segments(b"pts_time=0.000000\npts_time=4.000000\npts_time=8.000000\n");
    let duration = parse_seconds(b"10.500000\n").unwrap();
    let boundaries = segment_boundaries(keyframes, duration);
    assert_eq!(segment_durations(&boundaries), Ok(vec![4_000_000, 4_000_000, 2_500_000]));
}
