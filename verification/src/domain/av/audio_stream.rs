//! Audio streams, from their description.

use crate::domain::av::stream::{member_of, render, rendered, text_of, StreamData};
use vstd::prelude::*;

verus! {

/// What is kept of an audio stream. Each text is the member as compact
/// JSON, so a string keeps its quotes.
#[derive(Debug, Clone)]
pub struct AudioStream {
    pub codec: String,
    pub profile: String,
    pub bit_rate: String,
}

/// Whether `members` describe an audio stream with all that is kept of it.
pub open spec fn describes_audio(members: Seq<crate::domain::av::stream::Member>) -> bool {
    &&& text_of(member_of(members, "codec_type"@)) == Some("audio"@)
    &&& member_of(members, "codec_name"@) is Some
    &&& member_of(members, "profile"@) is Some
}

impl AudioStream {
    /// The audio stream that `stream_data` describes: one whose
    /// `codec_type` is the string `audio` and that has a `codec_name` and a
    /// `profile`. The bit rate is taken from the profile.
    pub fn from_stream(stream_data: &StreamData) -> (stream: Option<AudioStream>)
        ensures
            stream is Some <==> describes_audio(stream_data.members@),
            stream is Some ==> {
                let s = stream->Some_0;
                &&& s.codec@ == rendered(member_of(stream_data.members@, "codec_name"@)->Some_0)
                &&& s.profile@ == rendered(member_of(stream_data.members@, "profile"@)->Some_0)
                &&& s.bit_rate@ == rendered(member_of(stream_data.members@, "profile"@)->Some_0)
            },
    {
        if !stream_data.is_text("codec_type", "audio") {
            return None;
        }
        let codec = match stream_data.get("codec_name") {
            Some(v) => render(v),
            None => {
                return None;
            },
        };
        let profile = match stream_data.get("profile") {
            Some(v) => render(v),
            None => {
                return None;
            },
        };
        let bit_rate = match stream_data.get("profile") {
            Some(v) => render(v),
            None => {
                return None;
            },
        };
        Some(AudioStream { codec, profile, bit_rate })
    }
}

} // verus!
