use sinatra::domain::hls::{build_playlist, target_duration_of, MediaPlaylist};
use sinatra::text::{decimal_string, push_decimal, push_fixed6};

#[test]
fn test_playlist_metadata() {
    let mut playlist = MediaPlaylist::new(10);
    playlist.playlist_type = Some("VOD".to_string());
    playlist.independent_segments = true;
    playlist.add_segment(9_500_000, "segment_0.ts".to_string());

    let mut content = String::new();
    playlist.write_to(&mut content);

    assert!(content.contains("#EXT-X-PLAYLIST-TYPE:VOD"));
    assert!(content.contains("#EXT-X-INDEPENDENT-SEGMENTS"));
    assert!(content.contains("#EXT-X-TARGETDURATION:10"));
    assert!(content.contains("#EXTINF:9.500000,"));
    assert!(content.contains("segment_0.ts"));
}

#[test]
fn playlist_bytes_for_three_segments() {
    let text = build_playlist(&vec![4_000_000, 4_000_000, 2_500_000], Some("init.mp4"));
    let expected = "#EXTM3U\n\
#EXT-X-VERSION:7\n\
#EXT-X-TARGETDURATION:4\n\
#EXT-X-MEDIA-SEQUENCE:0\n\
#EXT-X-PLAYLIST-TYPE:VOD\n\
#EXT-X-INDEPENDENT-SEGMENTS\n\
#EXT-X-MAP:URI=\"init.mp4\"\n\
#EXTINF:4.000000,\n\
segment_0.mp4\n\
#EXTINF:4.000000,\n\
segment_1.mp4\n\
#EXTINF:2.500000,\n\
segment_2.mp4\n\
#EXT-X-ENDLIST\n";
    assert_eq!(text.as_bytes(), expected.as_bytes());
}

#[test]
fn playlist_without_init_has_no_map_line() {
    let text = build_playlist(&vec![1_000_000], None);
    assert_eq!(
        text,
        "#EXTM3U\n#EXT-X-VERSION:7\n#EXT-X-TARGETDURATION:1\n#EXT-X-MEDIA-SEQUENCE:0\n\
#EXT-X-PLAYLIST-TYPE:VOD\n#EXT-X-INDEPENDENT-SEGMENTS\n#EXTINF:1.000000,\nsegment_0.mp4\n#EXT-X-ENDLIST\n"
    );
}

#[test]
fn playlist_of_no_segments() {
    let text = build_playlist(&Vec::new(), Some("init.mp4"));
    assert_eq!(
        text,
        "#EXTM3U\n#EXT-X-VERSION:7\n#EXT-X-TARGETDURATION:0\n#EXT-X-MEDIA-SEQUENCE:0\n\
#EXT-X-PLAYLIST-TYPE:VOD\n#EXT-X-INDEPENDENT-SEGMENTS\n#EXT-X-MAP:URI=\"init.mp4\"\n#EXT-X-ENDLIST\n"
    );
}

#[test]
fn playlist_has_one_extinf_per_segment() {
    let durations: Vec<u64> = vec![3_141_592, 1, 59_999_999, 10_000_000, 0, 7_000_001];
    let text = build_playlist(&durations, Some("init.mp4"));
    let entries: Vec<&str> = text.lines().filter(|l| l.starts_with("#EXTINF:")).collect();
    assert_eq!(entries.len(), durations.len());
    assert_eq!(entries[0], "#EXTINF:3.141592,");
    assert_eq!(entries[1], "#EXTINF:0.000001,");
    assert_eq!(entries[2], "#EXTINF:59.999999,");
    assert_eq!(entries[3], "#EXTINF:10.000000,");
    assert_eq!(entries[4], "#EXTINF:0.000000,");
    assert_eq!(entries[5], "#EXTINF:7.000001,");
    for (i, d) in durations.iter().enumerate() {
        assert_eq!(entries[i], format!("#EXTINF:{:.6},", *d as f64 / 1e6));
    }
    let uris: Vec<&str> = text.lines().filter(|l| l.starts_with("segment_")).collect();
    assert_eq!(uris, vec![
        "segment_0.mp4",
        "segment_1.mp4",
        "segment_2.mp4",
        "segment_3.mp4",
        "segment_4.mp4",
        "segment_5.mp4"
    ]);
}

#[test]
fn playlist_numbers_segments_past_nine() {
    let durations: Vec<u64> = vec![2_000_000; 12];
    let text = build_playlist(&durations, None);
    assert!(text.contains("\nsegment_9.mp4\n#EXTINF:2.000000,\nsegment_10.mp4\n"));
    assert!(text.ends_with("segment_11.mp4\n#EXT-X-ENDLIST\n"));
}

#[test]
fn playlist_is_the_same_for_the_same_input() {
    let durations: Vec<u64> = vec![4_000_000, 4_000_000, 2_500_000];
    let a = build_playlist(&durations, Some("init.mp4"));
    let b = build_playlist(&durations.clone(), Some("init.mp4"));
    assert_eq!(a.as_bytes(), b.as_bytes());
}

#[test]
fn target_duration_is_ceiling_of_longest() {
    assert_eq!(target_duration_of(&vec![4_000_000, 4_000_000, 2_500_000]), 4);
    assert_eq!(target_duration_of(&vec![5_000_000]), 5);
    assert_eq!(target_duration_of(&vec![5_000_001]), 6);
    assert_eq!(target_duration_of(&vec![999_999, 1]), 1);
    assert_eq!(target_duration_of(&vec![9_500_000, 2_000_000]), 10);
    assert_eq!(target_duration_of(&Vec::new()), 0);
    assert_eq!(target_duration_of(&vec![0, 0]), 0);
    assert_eq!(target_duration_of(&vec![u64::MAX]), 18_446_744_073_710);
}

#[test]
fn new_playlist_is_version_seven_and_closed() {
    let p = MediaPlaylist::new(3);
    assert_eq!(p.version, 7);
    assert_eq!(p.target_duration, 3);
    assert_eq!(p.media_sequence, 0);
    assert!(p.segments.is_empty());
    assert!(p.end_list);
    assert!(p.playlist_type.is_none());
    assert!(!p.independent_segments);
    assert!(p.init_segment.is_none());
    let mut text = String::from("x");
    p.write_to(&mut text);
    assert_eq!(
        text,
        "x#EXTM3U\n#EXT-X-VERSION:7\n#EXT-X-TARGETDURATION:3\n#EXT-X-MEDIA-SEQUENCE:0\n#EXT-X-ENDLIST\n"
    );
}

#[test]
fn open_playlist_has_no_endlist() {
    let mut p = MediaPlaylist::new(2);
    p.end_list = false;
    p.media_sequence = 12;
    p.add_segment(1_250_000, "a.mp4".to_string());
    p.add_segment(2_000_000, "b.mp4".to_string());
    assert_eq!(p.segments.len(), 2);
    assert_eq!(p.segments[1].duration, 2_000_000);
    assert_eq!(p.segments[1].uri, "b.mp4");
    let mut text = String::new();
    p.write_to(&mut text);
    assert_eq!(
        text,
        "#EXTM3U\n#EXT-X-VERSION:7\n#EXT-X-TARGETDURATION:2\n#EXT-X-MEDIA-SEQUENCE:12\n\
#EXTINF:1.250000,\na.mp4\n#EXTINF:2.000000,\nb.mp4\n"
    );
}

#[test]
fn decimal_text_of_integers() {
    assert_eq!(decimal_string(0), "0");
    assert_eq!(decimal_string(7), "7");
    assert_eq!(decimal_string(10), "10");
    assert_eq!(decimal_string(1_234_567_890), "1234567890");
    assert_eq!(decimal_string(u64::MAX), "18446744073709551615");
    let mut s = String::from("n=");
    push_decimal(&mut s, 405);
    assert_eq!(s, "n=405");
}

#[test]
fn fixed_six_decimals_of_microseconds() {
    let cases: Vec<(u64, &str)> = vec![
        (0, "0.000000"),
        (1, "0.000001"),
        (100_000, "0.100000"),
        (2_500_000, "2.500000"),
        (12_345_678, "12.345678"),
        (999_999, "0.999999"),
        (1_000_000, "1.000000"),
    ];
    for (micros, expected) in cases {
        let mut s = String::new();
        push_fixed6(&mut s, micros);
        assert_eq!(s, expected);
    }
}
