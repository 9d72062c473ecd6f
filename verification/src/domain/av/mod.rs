//! Audio/video rules: segment schedules, MP4 box surgery, stream
//! descriptions, and the command lines and output of the external tools.

pub mod audio_stream;
pub mod av;
pub mod cmd;
pub mod probe;
pub mod segments;
pub mod stream;
pub mod video_stream;
