//! Verified helpers behind a collection of FFmpeg command-line tools: file
//! names of media files, time codes, chapter lists, cut lists, the output of
//! ffmpeg and ffprobe, and the arguments and filter graphs handed to ffmpeg.

pub mod text;
pub mod numfmt;
pub mod media;
pub mod timecode;
pub mod chapters;
pub mod listings;
pub mod commands;
pub mod names;
pub mod filters;
pub mod invocations;

pub use media::{get_media_info, MediaInfo};
pub use timecode::format_time_for_filename;
