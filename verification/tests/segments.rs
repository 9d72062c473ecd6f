use sinatra::domain::av::cmd::{RealFfprobeRunner, RealTranscodeExecutor};
use sinatra::domain::av::segments::{
    generate_init_segment, init_segment_args, seconds_text, strip_init_header, transcode_at,
    SegmentError,
};

fn mp4_box(kind: &[u8; 4], payload: &[u8]) -> Vec<u8> {
    let size = (payload.len() + 8) as u32;
    let mut out = size.to_be_bytes().to_vec();
    out.extend_from_slice(kind);
    out.extend_from_slice(payload);
    out
}

fn encoded() -> Vec<u8> {
    let mut data = mp4_box(b"ftyp", b"isom\0\0\x02\0");
    data.extend(mp4_box(b"moov", &[1, 2, 3, 4, 5]));
    data.extend(mp4_box(b"moof", &[9, 9, 9]));
    data.extend(mp4_box(b"mdat", &[7; 20]));
    data
}

#[test]
fn strip_keeps_everything_from_moof() {
    let data = encoded();
    let fragment = strip_init_header(&data).unwrap();
    let mut expected = mp4_box(b"moof", &[9, 9, 9]);
    expected.extend(mp4_box(b"mdat", &[7; 20]));
    assert_eq!(fragment, expected);
    assert_eq!(fragment[4..8].to_vec(), b"moof".to_vec());
}

#[test]
fn strip_keeps_trailing_bytes() {
    let mut data = encoded();
    data.extend_from_slice(&[0xde, 0xad]);
    let fragment = strip_init_header(&data).unwrap();
    assert_eq!(fragment.len(), 11 + 28 + 2);
    assert_eq!(fragment[fragment.len() - 2..].to_vec(), vec![0xde, 0xad]);
}

#[test]
fn strip_skips_unknown_boxes() {
    let mut data = mp4_box(b"free", &[0; 4]);
    data.extend(mp4_box(b"styp", &[]));
    data.extend(mp4_box(b"moof", &[1]));
    let fragment = strip_init_header(&data).unwrap();
    assert_eq!(fragment, mp4_box(b"moof", &[1]));
}

#[test]
fn strip_fails_without_moof() {
    let mut data = mp4_box(b"ftyp", &[0; 4]);
    data.extend(mp4_box(b"moov", &[0; 4]));
    assert_eq!(strip_init_header(&data), Err(SegmentError::MalformedFragment));
    assert_eq!(strip_init_header(&[]), Err(SegmentError::MalformedFragment));
    assert_eq!(strip_init_header(&[0, 0, 0, 8, b'm', b'o', b'o']), Err(SegmentError::MalformedFragment));
}

#[test]
fn strip_stops_at_a_size_under_eight() {
    let mut data = vec![0, 0, 0, 7, b'f', b'r', b'e', b'e'];
    data.extend(mp4_box(b"moof", &[1]));
    assert_eq!(strip_init_header(&data), Err(SegmentError::MalformedFragment));
    let mut zero = vec![0, 0, 0, 0, b'f', b'r', b'e', b'e'];
    zero.extend(mp4_box(b"moof", &[1]));
    assert_eq!(strip_init_header(&zero), Err(SegmentError::MalformedFragment));
}

#[test]
fn strip_stops_at_a_box_past_the_end() {
    let mut data = mp4_box(b"ftyp", &[0; 4]);
    data.extend_from_slice(&[0, 0, 0, 100, b'm', b'o', b'o', b'f', 1, 2, 3]);
    assert_eq!(strip_init_header(&data), Err(SegmentError::MalformedFragment));
    let huge = vec![0xff, 0xff, 0xff, 0xff, b'm', b'o', b'o', b'f'];
    assert_eq!(strip_init_header(&huge), Err(SegmentError::MalformedFragment));
}

#[test]
fn strip_accepts_a_bare_moof_header() {
    let data = mp4_box(b"moof", &[]);
    assert_eq!(strip_init_header(&data), Ok(data.clone()));
}

#[test]
fn init_is_ftyp_then_moov() {
    let data = encoded();
    let init = generate_init_segment(&data);
    let mut expected = mp4_box(b"ftyp", b"isom\0\0\x02\0");
    expected.extend(mp4_box(b"moov", &[1, 2, 3, 4, 5]));
    assert_eq!(init, expected);
    assert_eq!(init[4..8].to_vec(), b"ftyp".to_vec());
    assert_eq!(init[20..24].to_vec(), b"moov".to_vec());
    assert_eq!(init.len(), 16 + 13);
}

#[test]
fn init_leaves_out_other_boxes_and_stops_at_moof() {
    let mut data = mp4_box(b"ftyp", &[1]);
    data.extend(mp4_box(b"free", &[2, 2]));
    data.extend(mp4_box(b"moov", &[3]));
    data.extend(mp4_box(b"moof", &[4]));
    data.extend(mp4_box(b"moov", &[5]));
    let init = generate_init_segment(&data);
    let mut expected = mp4_box(b"ftyp", &[1]);
    expected.extend(mp4_box(b"moov", &[3]));
    assert_eq!(init, expected);
}

#[test]
fn init_of_unwalkable_data_is_empty() {
    assert!(generate_init_segment(&[]).is_empty());
    assert!(generate_init_segment(&[0, 0, 0, 4, b'f', b't', b'y', b'p']).is_empty());
    assert!(generate_init_segment(&mp4_box(b"moof", &[1, 2])).is_empty());
    let mut cut = mp4_box(b"ftyp", &[1]);
    cut.extend_from_slice(&[0, 0, 1, 0, b'm', b'o', b'o', b'v']);
    assert_eq!(generate_init_segment(&cut), mp4_box(b"ftyp", &[1]));
}

#[test]
fn transcode_arguments() {
    let args = transcode_at("/tmp/in.mp4", 4_000_000, 2_500_000, "/tmp/seg.temp.mp4");
    assert_eq!(args, vec![
        "-y",
        "-ss",
        "4.000000",
        "-i",
        "/tmp/in.mp4",
        "-t",
        "2.500000",
        "-movflags",
        "frag_keyframe+empty_moov+default_base_moof",
        "-output_ts_offset",
        "4.000000",
        "/tmp/seg.temp.mp4"
    ]);
}

#[test]
fn init_segment_arguments() {
    let args = init_segment_args("in.mp4", "init.init_temp.mp4");
    assert_eq!(args, vec![
        "-y",
        "-i",
        "in.mp4",
        "-frames:v",
        "1",
        "-movflags",
        "frag_keyframe+empty_moov+default_base_moof",
        "init.init_temp.mp4"
    ]);
    assert_eq!(seconds_text(10_500_000), "10.500000");
}

#[test]
fn probe_and_plain_transcode_arguments() {
    let probe = RealFfprobeRunner;
    assert_eq!(probe.run_ffprobe_for_segments("a.mp4"), vec![
        "-select_streams",
        "v",
        "-skip_frame",
        "nokey",
        "-show_frames",
        "-v",
        "quiet",
        "a.mp4"
    ]);
    let exec = RealTranscodeExecutor;
    assert_eq!(
        exec.run_ffmpeg_transcode("a.mp4", "1.5", Some("2".to_string()), "b.mp4"),
        vec!["-y", "-ss", "1.5", "-i", "a.mp4", "-t", "2", "b.mp4"]
    );
    assert_eq!(
        exec.run_ffmpeg_transcode("a.mp4", "0", None, "b.mp4"),
        vec!["-y", "-ss", "0", "-i", "a.mp4", "b.mp4"]
    );
    assert_eq!(exec.run_ffprobe_for_duration("a.mp4"), vec![
        "-v",
        "error",
        "-show_entries",
        "format=duration",
        "-of",
        "default=noprint_wrappers=1:nokey=1",
        "a.mp4"
    ]);
}

#[test]
fn init_and_fragment_make_the_file_again() {
    let data = encoded();
    let mut joined = generate_init_segment(&data);
    joined.extend(strip_init_header(&data).unwrap());
    assert_eq!(joined, data);
}
