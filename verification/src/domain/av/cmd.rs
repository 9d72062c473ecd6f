//! The command lines of the probing and transcoding tools.

use crate::domain::av::segments::texts;
use vstd::prelude::*;
use vstd::string::*;

verus! {

/// The probe that lists the keyframes of a file with `ffprobe`.
#[derive(Clone, Copy, Debug, PartialEq, Eq, Structural)]
pub struct RealFfprobeRunner;

/// The transcoder that runs `ffmpeg` and `ffprobe`.
#[derive(Clone, Copy, Debug, PartialEq, Eq, Structural)]
pub struct RealTranscodeExecutor;

/// The `ffprobe` arguments that list the key frames of the video of `path`.
pub open spec fn segments_probe_args(path: Seq<char>) -> Seq<Seq<char>> {
    seq![
        "-select_streams"@,
        "v"@,
        "-skip_frame"@,
        "nokey"@,
        "-show_frames"@,
        "-v"@,
        "quiet"@,
        path,
    ]
}

/// The `ffmpeg` arguments that copy `source` from `start_at` on to
/// `output`, for `duration` where one is given.
pub open spec fn plain_transcode_args(
    source: Seq<char>,
    start_at: Seq<char>,
    duration: Option<Seq<char>>,
    output: Seq<char>,
) -> Seq<Seq<char>> {
    seq!["-y"@, "-ss"@, start_at, "-i"@, source] + (match duration {
        Some(d) => seq!["-t"@, d],
        None => Seq::empty(),
    }) + seq![output]
}

/// The `ffprobe` arguments that print the duration of `path` and nothing
/// else.
pub open spec fn duration_probe_args(path: Seq<char>) -> Seq<Seq<char>> {
    seq![
        "-v"@,
        "error"@,
        "-show_entries"@,
        "format=duration"@,
        "-of"@,
        "default=noprint_wrappers=1:nokey=1"@,
        path,
    ]
}

impl RealFfprobeRunner {
    /// The arguments of the `ffprobe` run that lists the key frames of
    /// `path`.
    pub fn run_ffprobe_for_segments(&self, path: &str) -> (args: Vec<String>)
        ensures
            texts(args@) == segments_probe_args(path@),
    {
        let mut args: Vec<String> = Vec::new();
        args.push(String::from_str("-select_streams"));
        args.push(String::from_str("v"));
        args.push(String::from_str("-skip_frame"));
        args.push(String::from_str("nokey"));
        args.push(String::from_str("-show_frames"));
        args.push(String::from_str("-v"));
        args.push(String::from_str("quiet"));
        args.push(String::from_str(path));
        assert(texts(args@) =~= segments_probe_args(path@));
        args
    }
}

impl RealTranscodeExecutor {
    /// The arguments of the `ffmpeg` run that copies `av_path` from
    /// `start_at` on to `output_path`, for `duration` where one is given.
    pub fn run_ffmpeg_transcode(
        &self,
        av_path: &str,
        start_at: &str,
        duration: Option<String>,
        output_path: &str,
    ) -> (args: Vec<String>)
        ensures
            texts(args@) == plain_transcode_args(
                av_path@,
                start_at@,
                match duration {
                    Some(d) => Some(d@),
                    None => None,
                },
                output_path@,
            ),
    {
        let mut args: Vec<String> = Vec::new();
        args.push(String::from_str("-y"));
        args.push(String::from_str("-ss"));
        args.push(String::from_str(start_at));
        args.push(String::from_str("-i"));
        args.push(String::from_str(av_path));
        if let Some(d) = duration {
            args.push(String::from_str("-t"));
            args.push(d);
        }
        args.push(String::from_str(output_path));
        assert(texts(args@) =~= plain_transcode_args(
            av_path@,
            start_at@,
            match duration {
                Some(d) => Some(d@),
                None => None,
            },
            output_path@,
        ));
        args
    }

    /// The arguments of the `ffprobe` run that prints the duration of
    /// `media_path`.
    pub fn run_ffprobe_for_duration(&self, media_path: &str) -> (args: Vec<String>)
        ensures
            texts(args@) == duration_probe_args(media_path@),
    {
        let mut args: Vec<String> = Vec::new();
        args.push(String::from_str("-v"));
        args.push(String::from_str("error"));
        args.push(String::from_str("-show_entries"));
        args.push(String::from_str("format=duration"));
        args.push(String::from_str("-of"));
        args.push(String::from_str("default=noprint_wrappers=1:nokey=1"));
        args.push(String::from_str(media_path));
        assert(texts(args@) =~= duration_probe_args(media_path@));
        args
    }
}

} // verus!
