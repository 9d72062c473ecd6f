//! Video streams, from their description.

use crate::domain::av::stream::{
    member_of,
    number_or_zero,
    render,
    rendered,
    text_of,
    Member,
    StreamData,
    StreamValue,
};
use vstd::prelude::*;

verus! {

/// What is kept of a video stream. Each text is the member as compact
/// JSON, so a string keeps its quotes.
#[derive(Debug, Clone)]
pub struct VideoStream {
    pub codec: String,
    pub profile: String,
    pub pix_fmt: String,
    pub color_space: String,
    pub frame_rate: String,
    pub bit_rate: String,
    pub width: u16,
    pub height: u16,
    pub aspect_ratio: String,
    pub is_horizontal: bool,
}

/// Whether `members` describe a video stream with all that is kept of it.
pub open spec fn describes_video(members: Seq<Member>) -> bool {
    &&& text_of(member_of(members, "codec_type"@)) == Some("av"@)
    &&& member_of(members, "width"@) is Some
    &&& member_of(members, "height"@) is Some
    &&& member_of(members, "codec_name"@) is Some
    &&& member_of(members, "profile"@) is Some
    &&& member_of(members, "pix_fmt"@) is Some
    &&& member_of(members, "color_space"@) is Some
    &&& member_of(members, "frame_rate"@) is Some
    &&& member_of(members, "bit_rate"@) is Some
    &&& member_of(members, "aspect_ratio"@) is Some
}

/// The low 16 bits of the number that `value` holds, zero where it holds
/// none.
pub open spec fn dimension_of(value: StreamValue) -> u16 {
    (number_or_zero(value) % 65536) as u16
}

/// The low 16 bits of the number that `value` holds, zero where it holds
/// none.
fn dimension(value: &StreamValue) -> (d: u16)
    ensures
        d == dimension_of(*value),
{
    match value {
        StreamValue::Number(n) => (*n % 65536) as u16,
        _ => 0,
    }
}

impl VideoStream {
    /// The video stream that `stream_data` describes: one whose
    /// `codec_type` is the string `av` and that has all nine members that
    /// are kept. A width or height that is no number counts as zero; the
    /// stream is horizontal where it is wider than high.
    pub fn from_stream(stream_data: &StreamData) -> (stream: Option<VideoStream>)
        ensures
            stream is Some <==> describes_video(stream_data.members@),
            stream is Some ==> {
                let s = stream->Some_0;
                let m = stream_data.members@;
                &&& s.width == dimension_of(member_of(m, "width"@)->Some_0)
                &&& s.height == dimension_of(member_of(m, "height"@)->Some_0)
                &&& s.is_horizontal == (s.width > s.height)
                &&& s.codec@ == rendered(member_of(m, "codec_name"@)->Some_0)
                &&& s.profile@ == rendered(member_of(m, "profile"@)->Some_0)
                &&& s.pix_fmt@ == rendered(member_of(m, "pix_fmt"@)->Some_0)
                &&& s.color_space@ == rendered(member_of(m, "color_space"@)->Some_0)
                &&& s.frame_rate@ == rendered(member_of(m, "frame_rate"@)->Some_0)
                &&& s.bit_rate@ == rendered(member_of(m, "bit_rate"@)->Some_0)
                &&& s.aspect_ratio@ == rendered(member_of(m, "aspect_ratio"@)->Some_0)
            },
    {
        if !stream_data.is_text("codec_type", "av") {
            return None;
        }
        let width: u16 = match stream_data.get("width") {
            Some(v) => dimension(v),
            None => {
                return None;
            },
        };
        let height: u16 = match stream_data.get("height") {
            Some(v) => dimension(v),
            None => {
                return None;
            },
        };
        let codec = match stream_data.get("codec_name") {
            Some(v) => render(v),
            None => {
                return None;
            },
        };
        let profile = match stream_data.get("profile") {
            Some(v) => render(v),
            None => {
                return None;
            },
        };
        let pix_fmt = match stream_data.get("pix_fmt") {
            Some(v) => render(v),
            None => {
                return None;
            },
        };
        let color_space = match stream_data.get("color_space") {
            Some(v) => render(v),
            None => {
                return None;
            },
        };
        let frame_rate = match stream_data.get("frame_rate") {
            Some(v) => render(v),
            None => {
                return None;
            },
        };
        let bit_rate = match stream_data.get("bit_rate") {
            Some(v) => render(v),
            None => {
                return None;
            },
        };
        let aspect_ratio = match stream_data.get("aspect_ratio") {
            Some(v) => render(v),
            None => {
                return None;
            },
        };
        Some(
            VideoStream {
                codec,
                profile,
                pix_fmt,
                color_space,
                frame_rate,
                bit_rate,
                width,
                height,
                aspect_ratio,
                is_horizontal: width > height,
            },
        )
    }
}

} // verus!
