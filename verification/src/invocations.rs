//! The argument lists of the runs of ffmpeg, ffplay, ffprobe and yt-dlp
//! that the tools make, each stated as a sequence of texts.
use vstd::prelude::*;
use crate::commands::{push_arg, push_args};

verus! {

/// `-i` before each of `files`, in order.
pub open spec fn input_flags(files: Seq<Seq<char>>) -> Seq<Seq<char>>
    decreases files.len(),
{
    if files.len() == 0 {
        Seq::<Seq<char>>::empty()
    } else {
        input_flags(files.drop_last()) + seq!["-i"@, files.last()]
    }
}

/// `-vf filter` where a filter is given (not empty), else nothing.
pub open spec fn filter_if_given(filter: Seq<char>) -> Seq<Seq<char>> {
    if filter.len() > 0 {
        seq!["-vf"@, filter]
    } else {
        Seq::<Seq<char>>::empty()
    }
}

/// `-vf filter` where there is a filter, else nothing.
pub open spec fn filter_option(filter: Option<Seq<char>>) -> Seq<Seq<char>> {
    match filter {
        Some(f) => seq!["-vf"@, f],
        None => Seq::<Seq<char>>::empty(),
    }
}

fn push_inputs(v: &mut Vec<String>, files: &Vec<String>)
    ensures
        final(v).deep_view() == old(v).deep_view() + input_flags(files.deep_view()),
{
    let ghost before = v.deep_view();
    let ghost fd = files.deep_view();
    let n = files.len();
    let mut i: usize = 0;
    assert(fd.take(0) =~= Seq::<Seq<char>>::empty());
    assert(before + input_flags(fd.take(0)) =~= before);
    while i < n
        invariant
            n == fd.len(),
            fd == files.deep_view(),
            i <= n,
            v.deep_view() == before + input_flags(fd.take(i as int)),
        decreases n - i,
    {
        assert(fd.take(i + 1).drop_last() =~= fd.take(i as int));
        assert(files[i as int]@ == fd[i as int]);
        let ghost mid = v.deep_view();
        push_arg(v, "-i");
        push_arg(v, files[i].as_str());
        assert(v.deep_view() =~= mid + seq!["-i"@, fd[i as int]]);
        i = i + 1;
        assert(v.deep_view() =~= before + input_flags(fd.take(i as int)));
    }
    assert(fd.take(n as int) =~= fd);
}

fn push_filter_if_given(v: &mut Vec<String>, filter: &str)
    ensures
        final(v).deep_view() == old(v).deep_view() + filter_if_given(filter@),
{
    let ghost before = v.deep_view();
    if filter.unicode_len() > 0 {
        push_arg(v, "-vf");
        push_arg(v, filter);
        assert(v.deep_view() =~= before + filter_if_given(filter@));
    } else {
        assert(v.deep_view() =~= before + filter_if_given(filter@));
    }
}

fn push_filter_option(v: &mut Vec<String>, filter: &Option<String>)
    ensures
        final(v).deep_view() == old(v).deep_view() + filter_option(filter.deep_view()),
{
    let ghost before = v.deep_view();
    match filter {
        Some(f) => {
            push_arg(v, "-vf");
            push_arg(v, f.as_str());
        },
        None => {},
    }
    assert(v.deep_view() =~= before + filter_option(filter.deep_view()));
}

/// The ffmpeg run of the fade-in tool: the clip re-encoded with the video and audio fades.
pub open spec fn fade_clip_args_of(infile: Seq<char>, video_fade: Seq<char>, audio_fade: Seq<char>, codec: Seq<char>, params: Seq<Seq<char>>, out: Seq<char>) -> Seq<Seq<char>> {
    seq!["-hide_banner"@, "-v"@, "error"@, "-stats"@, "-i"@, infile, "-vf"@, video_fade, "-af"@, audio_fade, "-c:v"@, codec]
        + params
        + seq!["-c:a"@, "aac"@, "-pix_fmt"@, "yuv420p"@, "-movflags"@, "+faststart"@, out]
}

/// Builds `fade_clip_args_of`.
pub fn fade_clip_args(infile: &str, video_fade: &str, audio_fade: &str, codec: &str, params: &Vec<String>, out: &str) -> (v: Vec<String>)
    ensures
        v.deep_view() == fade_clip_args_of(infile@, video_fade@, audio_fade@, codec@, params.deep_view(), out@),
{
    let mut v: Vec<String> = Vec::new();
    push_arg(&mut v, "-hide_banner");
    push_arg(&mut v, "-v");
    push_arg(&mut v, "error");
    push_arg(&mut v, "-stats");
    push_arg(&mut v, "-i");
    push_arg(&mut v, infile);
    push_arg(&mut v, "-vf");
    push_arg(&mut v, video_fade);
    push_arg(&mut v, "-af");
    push_arg(&mut v, audio_fade);
    push_arg(&mut v, "-c:v");
    push_arg(&mut v, codec);
    push_args(&mut v, params);
    push_arg(&mut v, "-c:a");
    push_arg(&mut v, "aac");
    push_arg(&mut v, "-pix_fmt");
    push_arg(&mut v, "yuv420p");
    push_arg(&mut v, "-movflags");
    push_arg(&mut v, "+faststart");
    push_arg(&mut v, out);
    assert(v.deep_view() =~= fade_clip_args_of(infile@, video_fade@, audio_fade@, codec@, params.deep_view(), out@));
    v
}

/// The ffmpeg run that turns a still image into a video of `duration` seconds at 30 frames per second.
pub open spec fn img2video_args_of(infile: Seq<char>, codec: Seq<char>, params: Seq<Seq<char>>, duration: Seq<char>, out: Seq<char>) -> Seq<Seq<char>> {
    seq!["-hide_banner"@, "-v"@, "error"@, "-stats"@, "-loop"@, "1"@, "-i"@, infile, "-c:v"@, codec]
        + params
        + seq!["-t"@, duration, "-r"@, "30"@, "-pix_fmt"@, "yuv420p"@, "-movflags"@, "+faststart"@, out]
}

/// Builds `img2video_args_of`.
pub fn img2video_args(infile: &str, codec: &str, params: &Vec<String>, duration: &str, out: &str) -> (v: Vec<String>)
    ensures
        v.deep_view() == img2video_args_of(infile@, codec@, params.deep_view(), duration@, out@),
{
    let mut v: Vec<String> = Vec::new();
    push_arg(&mut v, "-hide_banner");
    push_arg(&mut v, "-v");
    push_arg(&mut v, "error");
    push_arg(&mut v, "-stats");
    push_arg(&mut v, "-loop");
    push_arg(&mut v, "1");
    push_arg(&mut v, "-i");
    push_arg(&mut v, infile);
    push_arg(&mut v, "-c:v");
    push_arg(&mut v, codec);
    push_args(&mut v, params);
    push_arg(&mut v, "-t");
    push_arg(&mut v, duration);
    push_arg(&mut v, "-r");
    push_arg(&mut v, "30");
    push_arg(&mut v, "-pix_fmt");
    push_arg(&mut v, "yuv420p");
    push_arg(&mut v, "-movflags");
    push_arg(&mut v, "+faststart");
    push_arg(&mut v, out);
    assert(v.deep_view() =~= img2video_args_of(infile@, codec@, params.deep_view(), duration@, out@));
    v
}

/// The ffmpeg run of the pan over a still image.
pub open spec fn pan_scan_args_of(infile: Seq<char>, filter: Seq<char>, duration: Seq<char>, codec: Seq<char>, params: Seq<Seq<char>>, out: Seq<char>) -> Seq<Seq<char>> {
    seq!["-hide_banner"@, "-v"@, "error"@, "-stats"@, "-loop"@, "1"@, "-i"@, infile, "-vf"@, filter, "-t"@, duration, "-c:v"@, codec]
        + params
        + seq!["-pix_fmt"@, "yuv420p"@, "-movflags"@, "+faststart"@, out]
}

/// Builds `pan_scan_args_of`.
pub fn pan_scan_args(infile: &str, filter: &str, duration: &str, codec: &str, params: &Vec<String>, out: &str) -> (v: Vec<String>)
    ensures
        v.deep_view() == pan_scan_args_of(infile@, filter@, duration@, codec@, params.deep_view(), out@),
{
    let mut v: Vec<String> = Vec::new();
    push_arg(&mut v, "-hide_banner");
    push_arg(&mut v, "-v");
    push_arg(&mut v, "error");
    push_arg(&mut v, "-stats");
    push_arg(&mut v, "-loop");
    push_arg(&mut v, "1");
    push_arg(&mut v, "-i");
    push_arg(&mut v, infile);
    push_arg(&mut v, "-vf");
    push_arg(&mut v, filter);
    push_arg(&mut v, "-t");
    push_arg(&mut v, duration);
    push_arg(&mut v, "-c:v");
    push_arg(&mut v, codec);
    push_args(&mut v, params);
    push_arg(&mut v, "-pix_fmt");
    push_arg(&mut v, "yuv420p");
    push_arg(&mut v, "-movflags");
    push_arg(&mut v, "+faststart");
    push_arg(&mut v, out);
    assert(v.deep_view() =~= pan_scan_args_of(infile@, filter@, duration@, codec@, params.deep_view(), out@));
    v
}

/// The ffmpeg run of a transition between two clips, its outputs mapped as `[v]` and `[a]`.
pub open spec fn xfade_args_of(first: Seq<char>, second: Seq<char>, filter: Seq<char>, codec: Seq<char>, params: Seq<Seq<char>>, out: Seq<char>) -> Seq<Seq<char>> {
    seq!["-hide_banner"@, "-loglevel"@, "error"@, "-stats"@, "-i"@, first, "-i"@, second, "-filter_complex"@, filter, "-map"@, "[v]"@, "-map"@, "[a]"@, "-c:v"@, codec]
        + params
        + seq!["-pix_fmt"@, "yuv420p"@, "-movflags"@, "+faststart"@, "-y"@, out]
}

/// Builds `xfade_args_of`.
pub fn xfade_args(first: &str, second: &str, filter: &str, codec: &str, params: &Vec<String>, out: &str) -> (v: Vec<String>)
    ensures
        v.deep_view() == xfade_args_of(first@, second@, filter@, codec@, params.deep_view(), out@),
{
    let mut v: Vec<String> = Vec::new();
    push_arg(&mut v, "-hide_banner");
    push_arg(&mut v, "-loglevel");
    push_arg(&mut v, "error");
    push_arg(&mut v, "-stats");
    push_arg(&mut v, "-i");
    push_arg(&mut v, first);
    push_arg(&mut v, "-i");
    push_arg(&mut v, second);
    push_arg(&mut v, "-filter_complex");
    push_arg(&mut v, filter);
    push_arg(&mut v, "-map");
    push_arg(&mut v, "[v]");
    push_arg(&mut v, "-map");
    push_arg(&mut v, "[a]");
    push_arg(&mut v, "-c:v");
    push_arg(&mut v, codec);
    push_args(&mut v, params);
    push_arg(&mut v, "-pix_fmt");
    push_arg(&mut v, "yuv420p");
    push_arg(&mut v, "-movflags");
    push_arg(&mut v, "+faststart");
    push_arg(&mut v, "-y");
    push_arg(&mut v, out);
    assert(v.deep_view() =~= xfade_args_of(first@, second@, filter@, codec@, params.deep_view(), out@));
    v
}

/// The ffmpeg run of a chain of transitions over the clips `inputs`, in order.
pub open spec fn xfade_clips_args_of(inputs: Seq<Seq<char>>, filter: Seq<char>, video_map: Seq<char>, audio_map: Seq<char>, codec: Seq<char>, params: Seq<Seq<char>>, out: Seq<char>) -> Seq<Seq<char>> {
    seq!["-hide_banner"@, "-v"@, "error"@, "-stats"@]
        + input_flags(inputs)
        + seq!["-filter_complex"@, filter, "-map"@, video_map, "-map"@, audio_map, "-c:v"@, codec]
        + params
        + seq!["-c:a"@, "aac"@, "-pix_fmt"@, "yuv420p"@, "-movflags"@, "+faststart"@, out]
}

/// Builds `xfade_clips_args_of`.
pub fn xfade_clips_args(inputs: &Vec<String>, filter: &str, video_map: &str, audio_map: &str, codec: &str, params: &Vec<String>, out: &str) -> (v: Vec<String>)
    ensures
        v.deep_view() == xfade_clips_args_of(inputs.deep_view(), filter@, video_map@, audio_map@, codec@, params.deep_view(), out@),
{
    let mut v: Vec<String> = Vec::new();
    push_arg(&mut v, "-hide_banner");
    push_arg(&mut v, "-v");
    push_arg(&mut v, "error");
    push_arg(&mut v, "-stats");
    push_inputs(&mut v, inputs);
    push_arg(&mut v, "-filter_complex");
    push_arg(&mut v, filter);
    push_arg(&mut v, "-map");
    push_arg(&mut v, video_map);
    push_arg(&mut v, "-map");
    push_arg(&mut v, audio_map);
    push_arg(&mut v, "-c:v");
    push_arg(&mut v, codec);
    push_args(&mut v, params);
    push_arg(&mut v, "-c:a");
    push_arg(&mut v, "aac");
    push_arg(&mut v, "-pix_fmt");
    push_arg(&mut v, "yuv420p");
    push_arg(&mut v, "-movflags");
    push_arg(&mut v, "+faststart");
    push_arg(&mut v, out);
    assert(v.deep_view() =~= xfade_clips_args_of(inputs.deep_view(), filter@, video_map@, audio_map@, codec@, params.deep_view(), out@));
    v
}

/// The ffmpeg run of the zoom over a still image.
pub open spec fn zoompan_args_of(infile: Seq<char>, filter: Seq<char>, duration: Seq<char>, codec: Seq<char>, params: Seq<Seq<char>>, out: Seq<char>) -> Seq<Seq<char>> {
    seq!["-hide_banner"@, "-loglevel"@, "error"@, "-stats"@, "-loop"@, "1"@, "-i"@, infile, "-vf"@, filter, "-t"@, duration, "-c:v"@, codec]
        + params
        + seq!["-pix_fmt"@, "yuv420p"@, "-movflags"@, "+faststart"@, "-y"@, out]
}

/// Builds `zoompan_args_of`.
pub fn zoompan_args(infile: &str, filter: &str, duration: &str, codec: &str, params: &Vec<String>, out: &str) -> (v: Vec<String>)
    ensures
        v.deep_view() == zoompan_args_of(infile@, filter@, duration@, codec@, params.deep_view(), out@),
{
    let mut v: Vec<String> = Vec::new();
    push_arg(&mut v, "-hide_banner");
    push_arg(&mut v, "-loglevel");
    push_arg(&mut v, "error");
    push_arg(&mut v, "-stats");
    push_arg(&mut v, "-loop");
    push_arg(&mut v, "1");
    push_arg(&mut v, "-i");
    push_arg(&mut v, infile);
    push_arg(&mut v, "-vf");
    push_arg(&mut v, filter);
    push_arg(&mut v, "-t");
    push_arg(&mut v, duration);
    push_arg(&mut v, "-c:v");
    push_arg(&mut v, codec);
    push_args(&mut v, params);
    push_arg(&mut v, "-pix_fmt");
    push_arg(&mut v, "yuv420p");
    push_arg(&mut v, "-movflags");
    push_arg(&mut v, "+faststart");
    push_arg(&mut v, "-y");
    push_arg(&mut v, out);
    assert(v.deep_view() =~= zoompan_args_of(infile@, filter@, duration@, codec@, params.deep_view(), out@));
    v
}

/// The ffmpeg run that replaces the audio of a video with the silent `source`, the video copied.
pub open spec fn audio_silence_args_of(infile: Seq<char>, source: Seq<char>, out: Seq<char>) -> Seq<Seq<char>> {
    seq!["-loglevel"@, "error"@, "-i"@, infile, "-f"@, "lavfi"@, "-i"@, source, "-c:v"@, "copy"@, "-c:a"@, "aac"@, "-map"@, "0:v:0"@, "-map"@, "1:a:0"@, "-shortest"@, "-y"@, out]
}

/// Builds `audio_silence_args_of`.
pub fn audio_silence_args(infile: &str, source: &str, out: &str) -> (v: Vec<String>)
    ensures
        v.deep_view() == audio_silence_args_of(infile@, source@, out@),
{
    let mut v: Vec<String> = Vec::new();
    push_arg(&mut v, "-loglevel");
    push_arg(&mut v, "error");
    push_arg(&mut v, "-i");
    push_arg(&mut v, infile);
    push_arg(&mut v, "-f");
    push_arg(&mut v, "lavfi");
    push_arg(&mut v, "-i");
    push_arg(&mut v, source);
    push_arg(&mut v, "-c:v");
    push_arg(&mut v, "copy");
    push_arg(&mut v, "-c:a");
    push_arg(&mut v, "aac");
    push_arg(&mut v, "-map");
    push_arg(&mut v, "0:v:0");
    push_arg(&mut v, "-map");
    push_arg(&mut v, "1:a:0");
    push_arg(&mut v, "-shortest");
    push_arg(&mut v, "-y");
    push_arg(&mut v, out);
    assert(v.deep_view() =~= audio_silence_args_of(infile@, source@, out@));
    v
}

/// The ffmpeg run that adds the chapters of an FFmpeg metadata file, the streams copied.
pub open spec fn chapter_add_args_of(infile: Seq<char>, metafile: Seq<char>, out: Seq<char>) -> Seq<Seq<char>> {
    seq!["-loglevel"@, "error"@, "-i"@, infile, "-f"@, "ffmetadata"@, "-i"@, metafile, "-map"@, "0"@, "-map_metadata"@, "1"@, "-codec"@, "copy"@, "-y"@, out]
}

/// Builds `chapter_add_args_of`.
pub fn chapter_add_args(infile: &str, metafile: &str, out: &str) -> (v: Vec<String>)
    ensures
        v.deep_view() == chapter_add_args_of(infile@, metafile@, out@),
{
    let mut v: Vec<String> = Vec::new();
    push_arg(&mut v, "-loglevel");
    push_arg(&mut v, "error");
    push_arg(&mut v, "-i");
    push_arg(&mut v, infile);
    push_arg(&mut v, "-f");
    push_arg(&mut v, "ffmetadata");
    push_arg(&mut v, "-i");
    push_arg(&mut v, metafile);
    push_arg(&mut v, "-map");
    push_arg(&mut v, "0");
    push_arg(&mut v, "-map_metadata");
    push_arg(&mut v, "1");
    push_arg(&mut v, "-codec");
    push_arg(&mut v, "copy");
    push_arg(&mut v, "-y");
    push_arg(&mut v, out);
    assert(v.deep_view() =~= chapter_add_args_of(infile@, metafile@, out@));
    v
}

/// The ffprobe run that lists the chapters of a file as CSV.
pub open spec fn chapter_probe_args_of(infile: Seq<char>) -> Seq<Seq<char>> {
    seq!["-v"@, "error"@, "-show_chapters"@, "-print_format"@, "csv"@, infile]
}

/// Builds `chapter_probe_args_of`.
pub fn chapter_probe_args(infile: &str) -> (v: Vec<String>)
    ensures
        v.deep_view() == chapter_probe_args_of(infile@),
{
    let mut v: Vec<String> = Vec::new();
    push_arg(&mut v, "-v");
    push_arg(&mut v, "error");
    push_arg(&mut v, "-show_chapters");
    push_arg(&mut v, "-print_format");
    push_arg(&mut v, "csv");
    push_arg(&mut v, infile);
    assert(v.deep_view() =~= chapter_probe_args_of(infile@));
    v
}

/// The ffmpeg run that adds a subtitle stream in `codec`, tagged with `language`.
pub open spec fn subtitle_add_args_of(infile: Seq<char>, subfile: Seq<char>, codec: Seq<char>, language: Seq<char>, out: Seq<char>) -> Seq<Seq<char>> {
    seq!["-loglevel"@, "error"@, "-i"@, infile, "-i"@, subfile, "-map"@, "0"@, "-map"@, "1"@, "-c"@, "copy"@, "-c:s"@, codec, "-metadata:s:s:0"@, language, "-y"@, out]
}

/// Builds `subtitle_add_args_of`.
pub fn subtitle_add_args(infile: &str, subfile: &str, codec: &str, language: &str, out: &str) -> (v: Vec<String>)
    ensures
        v.deep_view() == subtitle_add_args_of(infile@, subfile@, codec@, language@, out@),
{
    let mut v: Vec<String> = Vec::new();
    push_arg(&mut v, "-loglevel");
    push_arg(&mut v, "error");
    push_arg(&mut v, "-i");
    push_arg(&mut v, infile);
    push_arg(&mut v, "-i");
    push_arg(&mut v, subfile);
    push_arg(&mut v, "-map");
    push_arg(&mut v, "0");
    push_arg(&mut v, "-map");
    push_arg(&mut v, "1");
    push_arg(&mut v, "-c");
    push_arg(&mut v, "copy");
    push_arg(&mut v, "-c:s");
    push_arg(&mut v, codec);
    push_arg(&mut v, "-metadata:s:s:0");
    push_arg(&mut v, language);
    push_arg(&mut v, "-y");
    push_arg(&mut v, out);
    assert(v.deep_view() =~= subtitle_add_args_of(infile@, subfile@, codec@, language@, out@));
    v
}

/// The ffmpeg run that extracts one frame at `start`, scaled where a scale is given.
pub open spec fn extract_frame_args_of(start: Seq<char>, infile: Seq<char>, scale: Seq<char>, out: Seq<char>) -> Seq<Seq<char>> {
    seq!["-hide_banner"@, "-v"@, "error"@, "-stats"@, "-ss"@, start, "-i"@, infile]
        + filter_if_given(scale)
        + seq!["-frames:v"@, "1"@, "-q:v"@, "2"@, "-update"@, "1"@, out]
}

/// Builds `extract_frame_args_of`.
pub fn extract_frame_args(start: &str, infile: &str, scale: &str, out: &str) -> (v: Vec<String>)
    ensures
        v.deep_view() == extract_frame_args_of(start@, infile@, scale@, out@),
{
    let mut v: Vec<String> = Vec::new();
    push_arg(&mut v, "-hide_banner");
    push_arg(&mut v, "-v");
    push_arg(&mut v, "error");
    push_arg(&mut v, "-stats");
    push_arg(&mut v, "-ss");
    push_arg(&mut v, start);
    push_arg(&mut v, "-i");
    push_arg(&mut v, infile);
    push_filter_if_given(&mut v, scale);
    push_arg(&mut v, "-frames:v");
    push_arg(&mut v, "1");
    push_arg(&mut v, "-q:v");
    push_arg(&mut v, "2");
    push_arg(&mut v, "-update");
    push_arg(&mut v, "1");
    push_arg(&mut v, out);
    assert(v.deep_view() =~= extract_frame_args_of(start@, infile@, scale@, out@));
    v
}

/// The ffplay run that previews a colour grade.
pub open spec fn lut_preview_args_of(infile: Seq<char>, filter: Seq<char>) -> Seq<Seq<char>> {
    seq!["-hide_banner"@, "-v"@, "error"@, "-stats"@, "-i"@, infile, "-vf"@, filter]
}

/// Builds `lut_preview_args_of`.
pub fn lut_preview_args(infile: &str, filter: &str) -> (v: Vec<String>)
    ensures
        v.deep_view() == lut_preview_args_of(infile@, filter@),
{
    let mut v: Vec<String> = Vec::new();
    push_arg(&mut v, "-hide_banner");
    push_arg(&mut v, "-v");
    push_arg(&mut v, "error");
    push_arg(&mut v, "-stats");
    push_arg(&mut v, "-i");
    push_arg(&mut v, infile);
    push_arg(&mut v, "-vf");
    push_arg(&mut v, filter);
    assert(v.deep_view() =~= lut_preview_args_of(infile@, filter@));
    v
}

/// The ffmpeg run that applies a colour grade, the audio copied.
pub open spec fn lut_apply_args_of(infile: Seq<char>, filter: Seq<char>, codec: Seq<char>, params: Seq<Seq<char>>, out: Seq<char>) -> Seq<Seq<char>> {
    seq!["-hide_banner"@, "-v"@, "error"@, "-stats"@, "-i"@, infile, "-filter_complex"@, filter, "-c:v"@, codec]
        + params
        + seq!["-c:a"@, "copy"@, "-pix_fmt"@, "yuv420p"@, "-movflags"@, "+faststart"@, out]
}

/// Builds `lut_apply_args_of`.
pub fn lut_apply_args(infile: &str, filter: &str, codec: &str, params: &Vec<String>, out: &str) -> (v: Vec<String>)
    ensures
        v.deep_view() == lut_apply_args_of(infile@, filter@, codec@, params.deep_view(), out@),
{
    let mut v: Vec<String> = Vec::new();
    push_arg(&mut v, "-hide_banner");
    push_arg(&mut v, "-v");
    push_arg(&mut v, "error");
    push_arg(&mut v, "-stats");
    push_arg(&mut v, "-i");
    push_arg(&mut v, infile);
    push_arg(&mut v, "-filter_complex");
    push_arg(&mut v, filter);
    push_arg(&mut v, "-c:v");
    push_arg(&mut v, codec);
    push_args(&mut v, params);
    push_arg(&mut v, "-c:a");
    push_arg(&mut v, "copy");
    push_arg(&mut v, "-pix_fmt");
    push_arg(&mut v, "yuv420p");
    push_arg(&mut v, "-movflags");
    push_arg(&mut v, "+faststart");
    push_arg(&mut v, out);
    assert(v.deep_view() =~= lut_apply_args_of(infile@, filter@, codec@, params.deep_view(), out@));
    v
}

/// The ffmpeg run that writes an identity Hald CLUT beside a reference frame taken at `start`.
pub open spec fn lut_create_args_of(start: Seq<char>, infile: Seq<char>, filter: Seq<char>, out: Seq<char>) -> Seq<Seq<char>> {
    seq!["-hide_banner"@, "-v"@, "error"@, "-stats"@, "-f"@, "lavfi"@, "-i"@, "haldclutsrc=8"@, "-ss"@, start, "-i"@, infile, "-frames:v"@, "1"@, "-filter_complex"@, filter, out]
}

/// Builds `lut_create_args_of`.
pub fn lut_create_args(start: &str, infile: &str, filter: &str, out: &str) -> (v: Vec<String>)
    ensures
        v.deep_view() == lut_create_args_of(start@, infile@, filter@, out@),
{
    let mut v: Vec<String> = Vec::new();
    push_arg(&mut v, "-hide_banner");
    push_arg(&mut v, "-v");
    push_arg(&mut v, "error");
    push_arg(&mut v, "-stats");
    push_arg(&mut v, "-f");
    push_arg(&mut v, "lavfi");
    push_arg(&mut v, "-i");
    push_arg(&mut v, "haldclutsrc=8");
    push_arg(&mut v, "-ss");
    push_arg(&mut v, start);
    push_arg(&mut v, "-i");
    push_arg(&mut v, infile);
    push_arg(&mut v, "-frames:v");
    push_arg(&mut v, "1");
    push_arg(&mut v, "-filter_complex");
    push_arg(&mut v, filter);
    push_arg(&mut v, out);
    assert(v.deep_view() =~= lut_create_args_of(start@, infile@, filter@, out@));
    v
}

/// The ffmpeg run that writes a sheet of thumbnails from `seek` seconds on.
pub open spec fn tile_thumbnails_args_of(seek: Seq<char>, infile: Seq<char>, filter: Seq<char>, out: Seq<char>) -> Seq<Seq<char>> {
    seq!["-hide_banner"@, "-v"@, "error"@, "-stats"@, "-ss"@, seek, "-i"@, infile, "-vf"@, filter, "-frames:v"@, "1"@, "-q:v"@, "2"@, "-update"@, "1"@, out]
}

/// Builds `tile_thumbnails_args_of`.
pub fn tile_thumbnails_args(seek: &str, infile: &str, filter: &str, out: &str) -> (v: Vec<String>)
    ensures
        v.deep_view() == tile_thumbnails_args_of(seek@, infile@, filter@, out@),
{
    let mut v: Vec<String> = Vec::new();
    push_arg(&mut v, "-hide_banner");
    push_arg(&mut v, "-v");
    push_arg(&mut v, "error");
    push_arg(&mut v, "-stats");
    push_arg(&mut v, "-ss");
    push_arg(&mut v, seek);
    push_arg(&mut v, "-i");
    push_arg(&mut v, infile);
    push_arg(&mut v, "-vf");
    push_arg(&mut v, filter);
    push_arg(&mut v, "-frames:v");
    push_arg(&mut v, "1");
    push_arg(&mut v, "-q:v");
    push_arg(&mut v, "2");
    push_arg(&mut v, "-update");
    push_arg(&mut v, "1");
    push_arg(&mut v, out);
    assert(v.deep_view() =~= tile_thumbnails_args_of(seek@, infile@, filter@, out@));
    v
}

/// The ffmpeg run that converts a video to a GIF.
pub open spec fn vid2gif_args_of(infile: Seq<char>, filter: Seq<char>, out: Seq<char>) -> Seq<Seq<char>> {
    seq!["-hide_banner"@, "-v"@, "warning"@, "-stats"@, "-i"@, infile, "-vf"@, filter, "-y"@, out]
}

/// Builds `vid2gif_args_of`.
pub fn vid2gif_args(infile: &str, filter: &str, out: &str) -> (v: Vec<String>)
    ensures
        v.deep_view() == vid2gif_args_of(infile@, filter@, out@),
{
    let mut v: Vec<String> = Vec::new();
    push_arg(&mut v, "-hide_banner");
    push_arg(&mut v, "-v");
    push_arg(&mut v, "warning");
    push_arg(&mut v, "-stats");
    push_arg(&mut v, "-i");
    push_arg(&mut v, infile);
    push_arg(&mut v, "-vf");
    push_arg(&mut v, filter);
    push_arg(&mut v, "-y");
    push_arg(&mut v, out);
    assert(v.deep_view() =~= vid2gif_args_of(infile@, filter@, out@));
    v
}

/// The ffmpeg run that draws the waveform image of a file.
pub open spec fn waveform_args_of(infile: Seq<char>, filter: Seq<char>, out: Seq<char>) -> Seq<Seq<char>> {
    seq!["-hide_banner"@, "-v"@, "error"@, "-stats"@, "-i"@, infile, "-filter_complex"@, filter, "-frames:v"@, "1"@, "-y"@, out]
}

/// Builds `waveform_args_of`.
pub fn waveform_args(infile: &str, filter: &str, out: &str) -> (v: Vec<String>)
    ensures
        v.deep_view() == waveform_args_of(infile@, filter@, out@),
{
    let mut v: Vec<String> = Vec::new();
    push_arg(&mut v, "-hide_banner");
    push_arg(&mut v, "-v");
    push_arg(&mut v, "error");
    push_arg(&mut v, "-stats");
    push_arg(&mut v, "-i");
    push_arg(&mut v, infile);
    push_arg(&mut v, "-filter_complex");
    push_arg(&mut v, filter);
    push_arg(&mut v, "-frames:v");
    push_arg(&mut v, "1");
    push_arg(&mut v, "-y");
    push_arg(&mut v, out);
    assert(v.deep_view() =~= waveform_args_of(infile@, filter@, out@));
    v
}

/// The ffmpeg run that converts a video to an animated WebP that loops.
pub open spec fn webp_args_of(infile: Seq<char>, filter: Seq<char>, out: Seq<char>) -> Seq<Seq<char>> {
    seq!["-hide_banner"@, "-v"@, "warning"@, "-stats"@, "-i"@, infile, "-vf"@, filter, "-loop"@, "0"@, "-y"@, out]
}

/// Builds `webp_args_of`.
pub fn webp_args(infile: &str, filter: &str, out: &str) -> (v: Vec<String>)
    ensures
        v.deep_view() == webp_args_of(infile@, filter@, out@),
{
    let mut v: Vec<String> = Vec::new();
    push_arg(&mut v, "-hide_banner");
    push_arg(&mut v, "-v");
    push_arg(&mut v, "warning");
    push_arg(&mut v, "-stats");
    push_arg(&mut v, "-i");
    push_arg(&mut v, infile);
    push_arg(&mut v, "-vf");
    push_arg(&mut v, filter);
    push_arg(&mut v, "-loop");
    push_arg(&mut v, "0");
    push_arg(&mut v, "-y");
    push_arg(&mut v, out);
    assert(v.deep_view() =~= webp_args_of(infile@, filter@, out@));
    v
}

/// The ffmpeg run that puts the audio of one file under the video of another, both copied, as MP4.
pub open spec fn combine_clips_args_of(video: Seq<char>, audio: Seq<char>, out: Seq<char>) -> Seq<Seq<char>> {
    seq!["-hide_banner"@, "-loglevel"@, "error"@, "-stats"@, "-i"@, video, "-i"@, audio, "-c:v"@, "copy"@, "-c:a"@, "copy"@, "-map"@, "0:v:0"@, "-map"@, "1:a:0"@, "-pix_fmt"@, "yuv420p"@, "-movflags"@, "+faststart"@, "-f"@, "mp4"@, "-y"@, out]
}

/// Builds `combine_clips_args_of`.
pub fn combine_clips_args(video: &str, audio: &str, out: &str) -> (v: Vec<String>)
    ensures
        v.deep_view() == combine_clips_args_of(video@, audio@, out@),
{
    let mut v: Vec<String> = Vec::new();
    push_arg(&mut v, "-hide_banner");
    push_arg(&mut v, "-loglevel");
    push_arg(&mut v, "error");
    push_arg(&mut v, "-stats");
    push_arg(&mut v, "-i");
    push_arg(&mut v, video);
    push_arg(&mut v, "-i");
    push_arg(&mut v, audio);
    push_arg(&mut v, "-c:v");
    push_arg(&mut v, "copy");
    push_arg(&mut v, "-c:a");
    push_arg(&mut v, "copy");
    push_arg(&mut v, "-map");
    push_arg(&mut v, "0:v:0");
    push_arg(&mut v, "-map");
    push_arg(&mut v, "1:a:0");
    push_arg(&mut v, "-pix_fmt");
    push_arg(&mut v, "yuv420p");
    push_arg(&mut v, "-movflags");
    push_arg(&mut v, "+faststart");
    push_arg(&mut v, "-f");
    push_arg(&mut v, "mp4");
    push_arg(&mut v, "-y");
    push_arg(&mut v, out);
    assert(v.deep_view() =~= combine_clips_args_of(video@, audio@, out@));
    v
}

/// The ffplay run that previews the concatenation listed in `list_file`.
pub open spec fn concat_preview_args_of(list_file: Seq<char>) -> Seq<Seq<char>> {
    seq!["-hide_banner"@, "-v"@, "error"@, "-stats"@, "-f"@, "concat"@, "-safe"@, "0"@, "-i"@, list_file]
}

/// Builds `concat_preview_args_of`.
pub fn concat_preview_args(list_file: &str) -> (v: Vec<String>)
    ensures
        v.deep_view() == concat_preview_args_of(list_file@),
{
    let mut v: Vec<String> = Vec::new();
    push_arg(&mut v, "-hide_banner");
    push_arg(&mut v, "-v");
    push_arg(&mut v, "error");
    push_arg(&mut v, "-stats");
    push_arg(&mut v, "-f");
    push_arg(&mut v, "concat");
    push_arg(&mut v, "-safe");
    push_arg(&mut v, "0");
    push_arg(&mut v, "-i");
    push_arg(&mut v, list_file);
    assert(v.deep_view() =~= concat_preview_args_of(list_file@));
    v
}

/// The ffmpeg run that concatenates the files listed in `list_file`, the streams copied.
pub open spec fn concat_args_of(list_file: Seq<char>, out: Seq<char>) -> Seq<Seq<char>> {
    seq!["-hide_banner"@, "-v"@, "error"@, "-stats"@, "-f"@, "concat"@, "-safe"@, "0"@, "-i"@, list_file, "-c"@, "copy"@, out]
}

/// Builds `concat_args_of`.
pub fn concat_args(list_file: &str, out: &str) -> (v: Vec<String>)
    ensures
        v.deep_view() == concat_args_of(list_file@, out@),
{
    let mut v: Vec<String> = Vec::new();
    push_arg(&mut v, "-hide_banner");
    push_arg(&mut v, "-v");
    push_arg(&mut v, "error");
    push_arg(&mut v, "-stats");
    push_arg(&mut v, "-f");
    push_arg(&mut v, "concat");
    push_arg(&mut v, "-safe");
    push_arg(&mut v, "0");
    push_arg(&mut v, "-i");
    push_arg(&mut v, list_file);
    push_arg(&mut v, "-c");
    push_arg(&mut v, "copy");
    push_arg(&mut v, out);
    assert(v.deep_view() =~= concat_args_of(list_file@, out@));
    v
}

/// The ffplay run that shows the loudness meter in a window titled `title`.
pub open spec fn ebu_meter_args_of(title: Seq<char>, filter: Seq<char>) -> Seq<Seq<char>> {
    seq!["-hide_banner"@, "-v"@, "error"@, "-window_title"@, title, "-f"@, "lavfi"@, "-i"@, filter]
}

/// Builds `ebu_meter_args_of`.
pub fn ebu_meter_args(title: &str, filter: &str) -> (v: Vec<String>)
    ensures
        v.deep_view() == ebu_meter_args_of(title@, filter@),
{
    let mut v: Vec<String> = Vec::new();
    push_arg(&mut v, "-hide_banner");
    push_arg(&mut v, "-v");
    push_arg(&mut v, "error");
    push_arg(&mut v, "-window_title");
    push_arg(&mut v, title);
    push_arg(&mut v, "-f");
    push_arg(&mut v, "lavfi");
    push_arg(&mut v, "-i");
    push_arg(&mut v, filter);
    assert(v.deep_view() =~= ebu_meter_args_of(title@, filter@));
    v
}

/// The ffmpeg run that measures the loudness of a file, writing no output.
pub open spec fn loudness_analysis_args_of(infile: Seq<char>, filter: Seq<char>) -> Seq<Seq<char>> {
    seq!["-hide_banner"@, "-i"@, infile, "-af"@, filter, "-f"@, "null"@, "-"@]
}

/// Builds `loudness_analysis_args_of`.
pub fn loudness_analysis_args(infile: &str, filter: &str) -> (v: Vec<String>)
    ensures
        v.deep_view() == loudness_analysis_args_of(infile@, filter@),
{
    let mut v: Vec<String> = Vec::new();
    push_arg(&mut v, "-hide_banner");
    push_arg(&mut v, "-i");
    push_arg(&mut v, infile);
    push_arg(&mut v, "-af");
    push_arg(&mut v, filter);
    push_arg(&mut v, "-f");
    push_arg(&mut v, "null");
    push_arg(&mut v, "-");
    assert(v.deep_view() =~= loudness_analysis_args_of(infile@, filter@));
    v
}

/// The ffmpeg run that normalizes the loudness, the video copied and the audio at 48 kHz.
pub open spec fn loudness_apply_args_of(infile: Seq<char>, filter: Seq<char>, out: Seq<char>) -> Seq<Seq<char>> {
    seq!["-hide_banner"@, "-i"@, infile, "-af"@, filter, "-c:v"@, "copy"@, "-ar"@, "48000"@, out]
}

/// Builds `loudness_apply_args_of`.
pub fn loudness_apply_args(infile: &str, filter: &str, out: &str) -> (v: Vec<String>)
    ensures
        v.deep_view() == loudness_apply_args_of(infile@, filter@, out@),
{
    let mut v: Vec<String> = Vec::new();
    push_arg(&mut v, "-hide_banner");
    push_arg(&mut v, "-i");
    push_arg(&mut v, infile);
    push_arg(&mut v, "-af");
    push_arg(&mut v, filter);
    push_arg(&mut v, "-c:v");
    push_arg(&mut v, "copy");
    push_arg(&mut v, "-ar");
    push_arg(&mut v, "48000");
    push_arg(&mut v, out);
    assert(v.deep_view() =~= loudness_apply_args_of(infile@, filter@, out@));
    v
}

/// The ffplay run that shows a video with a scope in a window titled `title`.
pub open spec fn scopes_args_of(title: Seq<char>, infile: Seq<char>, filter: Seq<char>) -> Seq<Seq<char>> {
    seq!["-hide_banner"@, "-loglevel"@, "error"@, "-window_title"@, title, "-i"@, infile, "-vf"@, filter]
}

/// Builds `scopes_args_of`.
pub fn scopes_args(title: &str, infile: &str, filter: &str) -> (v: Vec<String>)
    ensures
        v.deep_view() == scopes_args_of(title@, infile@, filter@),
{
    let mut v: Vec<String> = Vec::new();
    push_arg(&mut v, "-hide_banner");
    push_arg(&mut v, "-loglevel");
    push_arg(&mut v, "error");
    push_arg(&mut v, "-window_title");
    push_arg(&mut v, title);
    push_arg(&mut v, "-i");
    push_arg(&mut v, infile);
    push_arg(&mut v, "-vf");
    push_arg(&mut v, filter);
    assert(v.deep_view() =~= scopes_args_of(title@, infile@, filter@));
    v
}

/// The ffmpeg run that fills the frame with a blurred copy of the video.
pub open spec fn blur_fill_args_of(infile: Seq<char>, filter: Seq<char>, codec: Seq<char>, params: Seq<Seq<char>>, audio_codec: Seq<char>, out: Seq<char>) -> Seq<Seq<char>> {
    seq!["-hide_banner"@, "-v"@, "error"@, "-stats"@, "-i"@, infile, "-filter_complex"@, filter, "-c:v"@, codec]
        + params
        + seq!["-c:a"@, audio_codec, "-pix_fmt"@, "yuv420p"@, "-movflags"@, "+faststart"@, out]
}

/// Builds `blur_fill_args_of`.
pub fn blur_fill_args(infile: &str, filter: &str, codec: &str, params: &Vec<String>, audio_codec: &str, out: &str) -> (v: Vec<String>)
    ensures
        v.deep_view() == blur_fill_args_of(infile@, filter@, codec@, params.deep_view(), audio_codec@, out@),
{
    let mut v: Vec<String> = Vec::new();
    push_arg(&mut v, "-hide_banner");
    push_arg(&mut v, "-v");
    push_arg(&mut v, "error");
    push_arg(&mut v, "-stats");
    push_arg(&mut v, "-i");
    push_arg(&mut v, infile);
    push_arg(&mut v, "-filter_complex");
    push_arg(&mut v, filter);
    push_arg(&mut v, "-c:v");
    push_arg(&mut v, codec);
    push_args(&mut v, params);
    push_arg(&mut v, "-c:a");
    push_arg(&mut v, audio_codec);
    push_arg(&mut v, "-pix_fmt");
    push_arg(&mut v, "yuv420p");
    push_arg(&mut v, "-movflags");
    push_arg(&mut v, "+faststart");
    push_arg(&mut v, out);
    assert(v.deep_view() =~= blur_fill_args_of(infile@, filter@, codec@, params.deep_view(), audio_codec@, out@));
    v
}

/// The ffplay run that previews the logo removal.
pub open spec fn delogo_preview_args_of(infile: Seq<char>, filter: Seq<char>) -> Seq<Seq<char>> {
    seq!["-hide_banner"@, "-stats"@, "-v"@, "error"@, "-i"@, infile, "-vf"@, filter]
}

/// Builds `delogo_preview_args_of`.
pub fn delogo_preview_args(infile: &str, filter: &str) -> (v: Vec<String>)
    ensures
        v.deep_view() == delogo_preview_args_of(infile@, filter@),
{
    let mut v: Vec<String> = Vec::new();
    push_arg(&mut v, "-hide_banner");
    push_arg(&mut v, "-stats");
    push_arg(&mut v, "-v");
    push_arg(&mut v, "error");
    push_arg(&mut v, "-i");
    push_arg(&mut v, infile);
    push_arg(&mut v, "-vf");
    push_arg(&mut v, filter);
    assert(v.deep_view() =~= delogo_preview_args_of(infile@, filter@));
    v
}

/// The ffmpeg run that removes a logo, the audio copied.
pub open spec fn delogo_args_of(infile: Seq<char>, filter: Seq<char>, codec: Seq<char>, params: Seq<Seq<char>>, out: Seq<char>) -> Seq<Seq<char>> {
    seq!["-hide_banner"@, "-v"@, "error"@, "-stats"@, "-i"@, infile, "-vf"@, filter, "-c:v"@, codec]
        + params
        + seq!["-c:a"@, "copy"@, "-pix_fmt"@, "yuv420p"@, "-movflags"@, "+faststart"@, out]
}

/// Builds `delogo_args_of`.
pub fn delogo_args(infile: &str, filter: &str, codec: &str, params: &Vec<String>, out: &str) -> (v: Vec<String>)
    ensures
        v.deep_view() == delogo_args_of(infile@, filter@, codec@, params.deep_view(), out@),
{
    let mut v: Vec<String> = Vec::new();
    push_arg(&mut v, "-hide_banner");
    push_arg(&mut v, "-v");
    push_arg(&mut v, "error");
    push_arg(&mut v, "-stats");
    push_arg(&mut v, "-i");
    push_arg(&mut v, infile);
    push_arg(&mut v, "-vf");
    push_arg(&mut v, filter);
    push_arg(&mut v, "-c:v");
    push_arg(&mut v, codec);
    push_args(&mut v, params);
    push_arg(&mut v, "-c:a");
    push_arg(&mut v, "copy");
    push_arg(&mut v, "-pix_fmt");
    push_arg(&mut v, "yuv420p");
    push_arg(&mut v, "-movflags");
    push_arg(&mut v, "+faststart");
    push_arg(&mut v, out);
    assert(v.deep_view() =~= delogo_args_of(infile@, filter@, codec@, params.deep_view(), out@));
    v
}

/// The ffmpeg run that sets two videos side by side, with the audio of `audio_map`.
pub open spec fn hstack_args_of(left: Seq<char>, right: Seq<char>, filter: Seq<char>, audio_map: Seq<char>, codec: Seq<char>, params: Seq<Seq<char>>, out: Seq<char>) -> Seq<Seq<char>> {
    seq!["-hide_banner"@, "-stats"@, "-v"@, "error"@, "-i"@, left, "-i"@, right, "-filter_complex"@, filter, "-map"@, "[v]"@, "-map"@, audio_map, "-c:v"@, codec]
        + params
        + seq!["-c:a"@, "aac"@, "-pix_fmt"@, "yuv420p"@, "-movflags"@, "+faststart"@, out]
}

/// Builds `hstack_args_of`.
pub fn hstack_args(left: &str, right: &str, filter: &str, audio_map: &str, codec: &str, params: &Vec<String>, out: &str) -> (v: Vec<String>)
    ensures
        v.deep_view() == hstack_args_of(left@, right@, filter@, audio_map@, codec@, params.deep_view(), out@),
{
    let mut v: Vec<String> = Vec::new();
    push_arg(&mut v, "-hide_banner");
    push_arg(&mut v, "-stats");
    push_arg(&mut v, "-v");
    push_arg(&mut v, "error");
    push_arg(&mut v, "-i");
    push_arg(&mut v, left);
    push_arg(&mut v, "-i");
    push_arg(&mut v, right);
    push_arg(&mut v, "-filter_complex");
    push_arg(&mut v, filter);
    push_arg(&mut v, "-map");
    push_arg(&mut v, "[v]");
    push_arg(&mut v, "-map");
    push_arg(&mut v, audio_map);
    push_arg(&mut v, "-c:v");
    push_arg(&mut v, codec);
    push_args(&mut v, params);
    push_arg(&mut v, "-c:a");
    push_arg(&mut v, "aac");
    push_arg(&mut v, "-pix_fmt");
    push_arg(&mut v, "yuv420p");
    push_arg(&mut v, "-movflags");
    push_arg(&mut v, "+faststart");
    push_arg(&mut v, out);
    assert(v.deep_view() =~= hstack_args_of(left@, right@, filter@, audio_map@, codec@, params.deep_view(), out@));
    v
}

/// The ffmpeg run that lays a clip over a video.
pub open spec fn overlay_clip_args_of(input: Seq<char>, overlay: Seq<char>, filter: Seq<char>, codec: Seq<char>, params: Seq<Seq<char>>, out: Seq<char>) -> Seq<Seq<char>> {
    seq!["-hide_banner"@, "-v"@, "error"@, "-stats"@, "-i"@, input, "-i"@, overlay, "-filter_complex"@, filter, "-c:v"@, codec]
        + params
        + seq!["-c:a"@, "aac"@, "-pix_fmt"@, "yuv420p"@, "-movflags"@, "+faststart"@, out]
}

/// Builds `overlay_clip_args_of`.
pub fn overlay_clip_args(input: &str, overlay: &str, filter: &str, codec: &str, params: &Vec<String>, out: &str) -> (v: Vec<String>)
    ensures
        v.deep_view() == overlay_clip_args_of(input@, overlay@, filter@, codec@, params.deep_view(), out@),
{
    let mut v: Vec<String> = Vec::new();
    push_arg(&mut v, "-hide_banner");
    push_arg(&mut v, "-v");
    push_arg(&mut v, "error");
    push_arg(&mut v, "-stats");
    push_arg(&mut v, "-i");
    push_arg(&mut v, input);
    push_arg(&mut v, "-i");
    push_arg(&mut v, overlay);
    push_arg(&mut v, "-filter_complex");
    push_arg(&mut v, filter);
    push_arg(&mut v, "-c:v");
    push_arg(&mut v, codec);
    push_args(&mut v, params);
    push_arg(&mut v, "-c:a");
    push_arg(&mut v, "aac");
    push_arg(&mut v, "-pix_fmt");
    push_arg(&mut v, "yuv420p");
    push_arg(&mut v, "-movflags");
    push_arg(&mut v, "+faststart");
    push_arg(&mut v, out);
    assert(v.deep_view() =~= overlay_clip_args_of(input@, overlay@, filter@, codec@, params.deep_view(), out@));
    v
}

/// The ffmpeg run that lays a picture-in-picture inset over a video.
pub open spec fn overlay_pip_args_of(input: Seq<char>, overlay: Seq<char>, filter: Seq<char>, codec: Seq<char>, params: Seq<Seq<char>>, out: Seq<char>) -> Seq<Seq<char>> {
    seq!["-hide_banner"@, "-loglevel"@, "error"@, "-stats"@, "-i"@, input, "-i"@, overlay, "-filter_complex"@, filter, "-c:v"@, codec]
        + params
        + seq!["-pix_fmt"@, "yuv420p"@, "-movflags"@, "+faststart"@, "-y"@, out]
}

/// Builds `overlay_pip_args_of`.
pub fn overlay_pip_args(input: &str, overlay: &str, filter: &str, codec: &str, params: &Vec<String>, out: &str) -> (v: Vec<String>)
    ensures
        v.deep_view() == overlay_pip_args_of(input@, overlay@, filter@, codec@, params.deep_view(), out@),
{
    let mut v: Vec<String> = Vec::new();
    push_arg(&mut v, "-hide_banner");
    push_arg(&mut v, "-loglevel");
    push_arg(&mut v, "error");
    push_arg(&mut v, "-stats");
    push_arg(&mut v, "-i");
    push_arg(&mut v, input);
    push_arg(&mut v, "-i");
    push_arg(&mut v, overlay);
    push_arg(&mut v, "-filter_complex");
    push_arg(&mut v, filter);
    push_arg(&mut v, "-c:v");
    push_arg(&mut v, codec);
    push_args(&mut v, params);
    push_arg(&mut v, "-pix_fmt");
    push_arg(&mut v, "yuv420p");
    push_arg(&mut v, "-movflags");
    push_arg(&mut v, "+faststart");
    push_arg(&mut v, "-y");
    push_arg(&mut v, out);
    assert(v.deep_view() =~= overlay_pip_args_of(input@, overlay@, filter@, codec@, params.deep_view(), out@));
    v
}

/// The ffmpeg run that prints the help of one encoder.
pub open spec fn encoder_help_args_of(query: Seq<char>) -> Seq<Seq<char>> {
    seq!["-hide_banner"@, "-h"@, query]
}

/// Builds `encoder_help_args_of`.
pub fn encoder_help_args(query: &str) -> (v: Vec<String>)
    ensures
        v.deep_view() == encoder_help_args_of(query@),
{
    let mut v: Vec<String> = Vec::new();
    push_arg(&mut v, "-hide_banner");
    push_arg(&mut v, "-h");
    push_arg(&mut v, query);
    assert(v.deep_view() =~= encoder_help_args_of(query@));
    v
}

/// The ffprobe run that prints the duration of a file in seconds.
pub open spec fn duration_probe_args_of(path: Seq<char>) -> Seq<Seq<char>> {
    seq!["-v"@, "error"@, "-show_entries"@, "format=duration"@, "-of"@, "default=noprint_wrappers=1:nokey=1"@, path]
}

/// Builds `duration_probe_args_of`.
pub fn duration_probe_args(path: &str) -> (v: Vec<String>)
    ensures
        v.deep_view() == duration_probe_args_of(path@),
{
    let mut v: Vec<String> = Vec::new();
    push_arg(&mut v, "-v");
    push_arg(&mut v, "error");
    push_arg(&mut v, "-show_entries");
    push_arg(&mut v, "format=duration");
    push_arg(&mut v, "-of");
    push_arg(&mut v, "default=noprint_wrappers=1:nokey=1");
    push_arg(&mut v, path);
    assert(v.deep_view() =~= duration_probe_args_of(path@));
    v
}

/// The ffmpeg run that lists the encoders, without the banner.
pub open spec fn encoder_list_args_of() -> Seq<Seq<char>> {
    seq!["-hide_banner"@, "-encoders"@]
}

/// Builds `encoder_list_args_of`.
pub fn encoder_list_args() -> (v: Vec<String>)
    ensures
        v.deep_view() == encoder_list_args_of(),
{
    let mut v: Vec<String> = Vec::new();
    push_arg(&mut v, "-hide_banner");
    push_arg(&mut v, "-encoders");
    assert(v.deep_view() =~= encoder_list_args_of());
    v
}

/// The ffmpeg run that lists the encoders.
pub open spec fn encoder_list_plain_args_of() -> Seq<Seq<char>> {
    seq!["-encoders"@]
}

/// Builds `encoder_list_plain_args_of`.
pub fn encoder_list_plain_args() -> (v: Vec<String>)
    ensures
        v.deep_view() == encoder_list_plain_args_of(),
{
    let mut v: Vec<String> = Vec::new();
    push_arg(&mut v, "-encoders");
    assert(v.deep_view() =~= encoder_list_plain_args_of());
    v
}

/// The ffprobe run that prints the frame size of the first video stream as `WIDTHxHEIGHT`.
pub open spec fn size_probe_args_of(path: Seq<char>) -> Seq<Seq<char>> {
    seq!["-v"@, "error"@, "-select_streams"@, "v:0"@, "-show_entries"@, "stream=width,height"@, "-of"@, "csv=s=x:p=0"@, path]
}

/// Builds `size_probe_args_of`.
pub fn size_probe_args(path: &str) -> (v: Vec<String>)
    ensures
        v.deep_view() == size_probe_args_of(path@),
{
    let mut v: Vec<String> = Vec::new();
    push_arg(&mut v, "-v");
    push_arg(&mut v, "error");
    push_arg(&mut v, "-select_streams");
    push_arg(&mut v, "v:0");
    push_arg(&mut v, "-show_entries");
    push_arg(&mut v, "stream=width,height");
    push_arg(&mut v, "-of");
    push_arg(&mut v, "csv=s=x:p=0");
    push_arg(&mut v, path);
    assert(v.deep_view() =~= size_probe_args_of(path@));
    v
}

/// The ffprobe run that prints the frame height of the first video stream.
pub open spec fn height_probe_args_of(path: Seq<char>) -> Seq<Seq<char>> {
    seq!["-v"@, "error"@, "-select_streams"@, "v:0"@, "-show_entries"@, "stream=height"@, "-of"@, "csv=p=0"@, path]
}

/// Builds `height_probe_args_of`.
pub fn height_probe_args(path: &str) -> (v: Vec<String>)
    ensures
        v.deep_view() == height_probe_args_of(path@),
{
    let mut v: Vec<String> = Vec::new();
    push_arg(&mut v, "-v");
    push_arg(&mut v, "error");
    push_arg(&mut v, "-select_streams");
    push_arg(&mut v, "v:0");
    push_arg(&mut v, "-show_entries");
    push_arg(&mut v, "stream=height");
    push_arg(&mut v, "-of");
    push_arg(&mut v, "csv=p=0");
    push_arg(&mut v, path);
    assert(v.deep_view() =~= height_probe_args_of(path@));
    v
}

/// The ffprobe run that prints the codec of the first audio stream.
pub open spec fn audio_codec_probe_args_of(path: Seq<char>) -> Seq<Seq<char>> {
    seq!["-v"@, "error"@, "-select_streams"@, "a:0"@, "-show_entries"@, "stream=codec_name"@, "-of"@, "default=noprint_wrappers=1:nokey=1"@, path]
}

/// Builds `audio_codec_probe_args_of`.
pub fn audio_codec_probe_args(path: &str) -> (v: Vec<String>)
    ensures
        v.deep_view() == audio_codec_probe_args_of(path@),
{
    let mut v: Vec<String> = Vec::new();
    push_arg(&mut v, "-v");
    push_arg(&mut v, "error");
    push_arg(&mut v, "-select_streams");
    push_arg(&mut v, "a:0");
    push_arg(&mut v, "-show_entries");
    push_arg(&mut v, "stream=codec_name");
    push_arg(&mut v, "-of");
    push_arg(&mut v, "default=noprint_wrappers=1:nokey=1");
    push_arg(&mut v, path);
    assert(v.deep_view() =~= audio_codec_probe_args_of(path@));
    v
}

/// The ffmpeg run that detects scene changes, writing no output.
pub open spec fn scene_detect_args_of(input: Seq<char>, filter: Seq<char>) -> Seq<Seq<char>> {
    seq!["-hide_banner"@, "-loglevel"@, "error"@, "-stats"@, "-i"@, input, "-filter_complex"@, filter, "-f"@, "null"@, "-"@]
}

/// Builds `scene_detect_args_of`.
pub fn scene_detect_args(input: &str, filter: &str) -> (v: Vec<String>)
    ensures
        v.deep_view() == scene_detect_args_of(input@, filter@),
{
    let mut v: Vec<String> = Vec::new();
    push_arg(&mut v, "-hide_banner");
    push_arg(&mut v, "-loglevel");
    push_arg(&mut v, "error");
    push_arg(&mut v, "-stats");
    push_arg(&mut v, "-i");
    push_arg(&mut v, input);
    push_arg(&mut v, "-filter_complex");
    push_arg(&mut v, filter);
    push_arg(&mut v, "-f");
    push_arg(&mut v, "null");
    push_arg(&mut v, "-");
    assert(v.deep_view() =~= scene_detect_args_of(input@, filter@));
    v
}

/// The ffmpeg run that reports scene changes through `showinfo`, writing no output.
pub open spec fn scene_showinfo_args_of(input: Seq<char>, filter: Seq<char>) -> Seq<Seq<char>> {
    seq!["-hide_banner"@, "-loglevel"@, "info"@, "-i"@, input, "-filter_complex"@, filter, "-f"@, "null"@, "-"@]
}

/// Builds `scene_showinfo_args_of`.
pub fn scene_showinfo_args(input: &str, filter: &str) -> (v: Vec<String>)
    ensures
        v.deep_view() == scene_showinfo_args_of(input@, filter@),
{
    let mut v: Vec<String> = Vec::new();
    push_arg(&mut v, "-hide_banner");
    push_arg(&mut v, "-loglevel");
    push_arg(&mut v, "info");
    push_arg(&mut v, "-i");
    push_arg(&mut v, input);
    push_arg(&mut v, "-filter_complex");
    push_arg(&mut v, filter);
    push_arg(&mut v, "-f");
    push_arg(&mut v, "null");
    push_arg(&mut v, "-");
    assert(v.deep_view() =~= scene_showinfo_args_of(input@, filter@));
    v
}

/// The ffmpeg run that extracts one image at `start`, scaled where a scale filter is given.
pub open spec fn scene_image_args_of(start: Seq<char>, input: Seq<char>, scale: Option<Seq<char>>, out: Seq<char>) -> Seq<Seq<char>> {
    seq!["-hide_banner"@, "-loglevel"@, "error"@, "-ss"@, start, "-i"@, input, "-vframes"@, "1"@, "-q:v"@, "2"@]
        + filter_option(scale)
        + seq![out]
}

/// Builds `scene_image_args_of`.
pub fn scene_image_args(start: &str, input: &str, scale: &Option<String>, out: &str) -> (v: Vec<String>)
    ensures
        v.deep_view() == scene_image_args_of(start@, input@, scale.deep_view(), out@),
{
    let mut v: Vec<String> = Vec::new();
    push_arg(&mut v, "-hide_banner");
    push_arg(&mut v, "-loglevel");
    push_arg(&mut v, "error");
    push_arg(&mut v, "-ss");
    push_arg(&mut v, start);
    push_arg(&mut v, "-i");
    push_arg(&mut v, input);
    push_arg(&mut v, "-vframes");
    push_arg(&mut v, "1");
    push_arg(&mut v, "-q:v");
    push_arg(&mut v, "2");
    push_filter_option(&mut v, scale);
    push_arg(&mut v, out);
    assert(v.deep_view() =~= scene_image_args_of(start@, input@, scale.deep_view(), out@));
    v
}

/// The ffmpeg run that cuts a vertical short from `start` to `end`.
pub open spec fn trim_short_args_of(infile: Seq<char>, start: Seq<char>, end: Seq<char>, filter: Seq<char>, out: Seq<char>) -> Seq<Seq<char>> {
    seq!["-hide_banner"@, "-v"@, "error"@, "-stats"@, "-i"@, infile, "-ss"@, start, "-to"@, end, "-vf"@, filter, "-c:v"@, "libx264"@, "-profile:v"@, "high"@, "-pix_fmt"@, "yuv420p"@, "-c:a"@, "aac"@, "-movflags"@, "+faststart"@, "-y"@, out]
}

/// Builds `trim_short_args_of`.
pub fn trim_short_args(infile: &str, start: &str, end: &str, filter: &str, out: &str) -> (v: Vec<String>)
    ensures
        v.deep_view() == trim_short_args_of(infile@, start@, end@, filter@, out@),
{
    let mut v: Vec<String> = Vec::new();
    push_arg(&mut v, "-hide_banner");
    push_arg(&mut v, "-v");
    push_arg(&mut v, "error");
    push_arg(&mut v, "-stats");
    push_arg(&mut v, "-i");
    push_arg(&mut v, infile);
    push_arg(&mut v, "-ss");
    push_arg(&mut v, start);
    push_arg(&mut v, "-to");
    push_arg(&mut v, end);
    push_arg(&mut v, "-vf");
    push_arg(&mut v, filter);
    push_arg(&mut v, "-c:v");
    push_arg(&mut v, "libx264");
    push_arg(&mut v, "-profile:v");
    push_arg(&mut v, "high");
    push_arg(&mut v, "-pix_fmt");
    push_arg(&mut v, "yuv420p");
    push_arg(&mut v, "-c:a");
    push_arg(&mut v, "aac");
    push_arg(&mut v, "-movflags");
    push_arg(&mut v, "+faststart");
    push_arg(&mut v, "-y");
    push_arg(&mut v, out);
    assert(v.deep_view() =~= trim_short_args_of(infile@, start@, end@, filter@, out@));
    v
}

/// The yt-dlp run that prints the title and the file extension of a video.
pub open spec fn remote_metadata_args_of(input: Seq<char>) -> Seq<Seq<char>> {
    seq!["--get-title"@, "--get-filename"@, "-o"@, "%(ext)s"@, "--default-search"@, "ytsearch"@, input]
}

/// Builds `remote_metadata_args_of`.
pub fn remote_metadata_args(input: &str) -> (v: Vec<String>)
    ensures
        v.deep_view() == remote_metadata_args_of(input@),
{
    let mut v: Vec<String> = Vec::new();
    push_arg(&mut v, "--get-title");
    push_arg(&mut v, "--get-filename");
    push_arg(&mut v, "-o");
    push_arg(&mut v, "%(ext)s");
    push_arg(&mut v, "--default-search");
    push_arg(&mut v, "ytsearch");
    push_arg(&mut v, input);
    assert(v.deep_view() =~= remote_metadata_args_of(input@));
    v
}

/// The yt-dlp run that prints the stream URLs of a video.
pub open spec fn remote_urls_args_of(input: Seq<char>) -> Seq<Seq<char>> {
    seq!["-g"@, "--default-search"@, "ytsearch"@, input]
}

/// Builds `remote_urls_args_of`.
pub fn remote_urls_args(input: &str) -> (v: Vec<String>)
    ensures
        v.deep_view() == remote_urls_args_of(input@),
{
    let mut v: Vec<String> = Vec::new();
    push_arg(&mut v, "-g");
    push_arg(&mut v, "--default-search");
    push_arg(&mut v, "ytsearch");
    push_arg(&mut v, input);
    assert(v.deep_view() =~= remote_urls_args_of(input@));
    v
}

} // verus!
