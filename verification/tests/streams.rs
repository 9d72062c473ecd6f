use sinatra::domain::av::audio_stream::AudioStream;
use sinatra::domain::av::stream::{render, Member, StreamData, StreamValue};
use sinatra::domain::av::video_stream::VideoStream;

fn text(s: &str) -> StreamValue {
    StreamValue::Text(s.to_string())
}

fn object(members: Vec<(&str, StreamValue)>) -> StreamData {
    StreamData {
        members: members
            .into_iter()
            .map(|(name, value)| Member { name: name.to_string(), value })
            .collect(),
    }
}

fn without(data: &StreamData, name: &str) -> StreamData {
    StreamData { members: data.members.iter().filter(|m| m.name != name).cloned().collect() }
}

fn video(width: StreamValue, height: StreamValue, aspect_ratio: &str) -> StreamData {
    object(vec![
        ("codec_type", text("av")),
        ("codec_name", text("h264")),
        ("profile", text("High")),
        ("pix_fmt", text("yuv420p")),
        ("color_space", text("bt709")),
        ("frame_rate", text("30000/1001")),
        ("bit_rate", text("5000000")),
        ("width", width),
        ("height", height),
        ("aspect_ratio", text(aspect_ratio)),
    ])
}

#[test]
fn test_from_stream_valid_audio() {
    let stream_data = object(vec![
        ("codec_type", text("audio")),
        ("codec_name", text("aac")),
        ("profile", text("LC")),
    ]);
    let audio_stream = AudioStream::from_stream(&stream_data);
    assert!(audio_stream.is_some());
    let stream = audio_stream.unwrap();
    assert_eq!(stream.codec, "\"aac\"");
    assert_eq!(stream.profile, "\"LC\"");
    assert_eq!(stream.bit_rate, "\"LC\"");
}

#[test]
fn test_from_stream_non_audio_codec_type() {
    let stream_data = object(vec![
        ("codec_type", text("video")),
        ("codec_name", text("h264")),
        ("profile", text("High")),
    ]);
    let audio_stream = AudioStream::from_stream(&stream_data);
    assert!(audio_stream.is_none());
}

#[test]
fn audio_stream_test_from_stream_missing_codec_type() {
    let stream_data = object(vec![("codec_name", text("aac")), ("profile", text("LC"))]);
    let audio_stream = AudioStream::from_stream(&stream_data);
    assert!(audio_stream.is_none());
}

#[test]
fn test_from_stream_missing_codec_name() {
    let stream_data = object(vec![("codec_type", text("audio")), ("profile", text("LC"))]);
    let audio_stream = AudioStream::from_stream(&stream_data);
    assert!(audio_stream.is_none());
}

#[test]
fn test_from_stream_missing_profile() {
    let stream_data = object(vec![("codec_type", text("audio")), ("codec_name", text("aac"))]);
    let audio_stream = AudioStream::from_stream(&stream_data);
    assert!(audio_stream.is_none());
}

#[test]
fn test_from_stream_valid_video() {
    let stream_data = video(StreamValue::Number(1920), StreamValue::Number(1080), "16:9");
    let video_stream = VideoStream::from_stream(&stream_data);
    assert!(video_stream.is_some());
    let stream = video_stream.unwrap();
    assert_eq!(stream.codec, "\"h264\"");
    assert_eq!(stream.profile, "\"High\"");
    assert_eq!(stream.pix_fmt, "\"yuv420p\"");
    assert_eq!(stream.color_space, "\"bt709\"");
    assert_eq!(stream.frame_rate, "\"30000/1001\"");
    assert_eq!(stream.bit_rate, "\"5000000\"");
    assert_eq!(stream.width, 1920);
    assert_eq!(stream.height, 1080);
    assert_eq!(stream.aspect_ratio, "\"16:9\"");
    assert_eq!(stream.is_horizontal, true);
}

#[test]
fn test_from_stream_vertical_video() {
    let stream_data = video(StreamValue::Number(1080), StreamValue::Number(1920), "9:16");
    let video_stream = VideoStream::from_stream(&stream_data);
    assert!(video_stream.is_some());
    let stream = video_stream.unwrap();
    assert_eq!(stream.width, 1080);
    assert_eq!(stream.height, 1920);
    assert_eq!(stream.is_horizontal, false);
}

#[test]
fn test_from_stream_square_video() {
    let stream_data = video(StreamValue::Number(1080), StreamValue::Number(1080), "1:1");
    let video_stream = VideoStream::from_stream(&stream_data);
    assert!(video_stream.is_some());
    let stream = video_stream.unwrap();
    assert_eq!(stream.width, 1080);
    assert_eq!(stream.height, 1080);
    assert_eq!(stream.is_horizontal, false);
}

#[test]
fn test_from_stream_non_video_codec_type() {
    let stream_data = object(vec![("codec_type", text("audio")), ("codec_name", text("aac"))]);
    let video_stream = VideoStream::from_stream(&stream_data);
    assert!(video_stream.is_none());
}

#[test]
fn video_stream_test_from_stream_missing_codec_type() {
    let stream_data = object(vec![("codec_name", text("h264"))]);
    let video_stream = VideoStream::from_stream(&stream_data);
    assert!(video_stream.is_none());
}

#[test]
fn test_from_stream_missing_critical_fields() {
    let base = video(StreamValue::Number(1920), StreamValue::Number(1080), "16:9");
    let fields_to_test = [
        "codec_name",
        "profile",
        "pix_fmt",
        "color_space",
        "frame_rate",
        "bit_rate",
        "width",
        "height",
        "aspect_ratio",
    ];
    for &field in fields_to_test.iter() {
        if field == "width" || field == "height" {
            continue;
        }
        let data = without(&base, field);
        let video_stream = VideoStream::from_stream(&data);
        assert!(video_stream.is_none(), "Expected None when '{}' is missing", field);
    }

    let data_no_width = without(&base, "width");
    assert!(
        VideoStream::from_stream(&data_no_width).is_none(),
        "Expected None when 'width' is completely missing"
    );

    let data_no_height = without(&base, "height");
    assert!(
        VideoStream::from_stream(&data_no_height).is_none(),
        "Expected None when 'height' is completely missing"
    );
}

#[test]
fn test_from_stream_width_height_not_numbers() {
    let stream_data_invalid_width = video(text("not_a_number"), StreamValue::Number(1080), "16:9");
    let video_stream_invalid_width = VideoStream::from_stream(&stream_data_invalid_width);
    assert!(video_stream_invalid_width.is_some());
    let stream_iw = video_stream_invalid_width.unwrap();
    assert_eq!(stream_iw.width, 0);
    assert_eq!(stream_iw.height, 1080);
    assert_eq!(stream_iw.is_horizontal, false);

    let stream_data_null_height = video(StreamValue::Number(1920), StreamValue::Null, "16:9");
    let video_stream_null_height = VideoStream::from_stream(&stream_data_null_height);
    assert!(video_stream_null_height.is_some());
    let stream_nh = video_stream_null_height.unwrap();
    assert_eq!(stream_nh.width, 1920);
    assert_eq!(stream_nh.height, 0);
    assert_eq!(stream_nh.is_horizontal, true);

    let stream_data_both_zero = video(StreamValue::Null, text("zero"), "16:9");
    let video_stream_both_zero = VideoStream::from_stream(&stream_data_both_zero);
    assert!(video_stream_both_zero.is_some());
    let stream_bz = video_stream_both_zero.unwrap();
    assert_eq!(stream_bz.width, 0);
    assert_eq!(stream_bz.height, 0);
    assert_eq!(stream_bz.is_horizontal, false);
}

#[test]
fn width_keeps_its_low_sixteen_bits() {
    let data = video(StreamValue::Number(70_000), StreamValue::Number(65_536), "1:1");
    let stream = VideoStream::from_stream(&data).unwrap();
    assert_eq!(stream.width, 4464);
    assert_eq!(stream.height, 0);
    assert!(stream.is_horizontal);
}

#[test]
fn members_render_as_compact_json() {
    assert_eq!(render(&StreamValue::Null), "null");
    assert_eq!(render(&StreamValue::Bool(true)), "true");
    assert_eq!(render(&StreamValue::Bool(false)), "false");
    assert_eq!(render(&StreamValue::Number(0)), "0");
    assert_eq!(render(&StreamValue::Number(5_000_000)), "5000000");
    assert_eq!(render(&text("aac")), "\"aac\"");
    assert_eq!(render(&text("a\"b\\c\n")), "\"a\\\"b\\\\c\\n\"");
    for v in [StreamValue::Null, StreamValue::Bool(true), StreamValue::Number(42), text("x y")] {
        let same = match &v {
            StreamValue::Null => serde_json::Value::Null,
            StreamValue::Bool(b) => serde_json::Value::Bool(*b),
            StreamValue::Number(n) => serde_json::Value::from(*n),
            StreamValue::Text(s) => serde_json::Value::String(s.clone()),
        };
        assert_eq!(render(&v), same.to_string());
    }
}

#[test]
fn first_member_of_a_name_counts() {
    let data = object(vec![
        ("codec_type", text("audio")),
        ("codec_name", StreamValue::Number(7)),
        ("codec_name", text("aac")),
        ("profile", StreamValue::Bool(false)),
    ]);
    assert!(matches!(data.get("codec_name"), Some(StreamValue::Number(7))));
    assert!(data.get("missing").is_none());
    assert!(data.is_text("codec_type", "audio"));
    assert!(!data.is_text("codec_type", "video"));
    assert!(!data.is_text("codec_name", "7"));
    let stream = AudioStream::from_stream(&data).unwrap();
    assert_eq!(stream.codec, "7");
    assert_eq!(stream.profile, "false");
}

#[test]
fn codec_type_must_be_a_string() {
    let data = object(vec![
        ("codec_type", StreamValue::Number(1)),
        ("codec_name", text("aac")),
        ("profile", text("LC")),
    ]);
    assert!(AudioStream::from_stream(&data).is_none());
}
