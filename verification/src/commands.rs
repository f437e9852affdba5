//! The argument lists that the tools hand to `ffmpeg`.
use vstd::prelude::*;
use crate::text::{all_ascii, ascii_fold, lowercase_of, same_text, to_lowercase};

verus! {

/// Appends one argument.
pub fn push_arg(v: &mut Vec<String>, s: &str)
    ensures
        final(v).deep_view() == old(v).deep_view().push(s@),
{
    let ghost before = v.deep_view();
    v.push(String::from_str(s));
    assert(v.deep_view() =~= before.push(s@));
}

/// Appends several arguments.
pub fn push_args(v: &mut Vec<String>, more: &Vec<String>)
    ensures
        final(v).deep_view() == old(v).deep_view() + more.deep_view(),
{
    let ghost before = v.deep_view();
    let ghost md = more.deep_view();
    let n = more.len();
    let mut i: usize = 0;
    assert(before + md.take(0) =~= before);
    while i < n
        invariant
            n == md.len(),
            md == more.deep_view(),
            i <= n,
            v.deep_view() == before + md.take(i as int),
        decreases n - i,
    {
        assert(more[i as int]@ == md[i as int]);
        push_arg(v, more[i].as_str());
        assert(before + md.take(i + 1) =~= (before + md.take(i as int)).push(md[i as int]));
        i = i + 1;
    }
    assert(md.take(n as int) =~= md);
}

/// The video codec and its options that most tools choose: NVIDIA's HEVC
/// encoder in high-quality VBR mode where hardware encoding is available,
/// else libx264 at CRF 18 with the given preset.
pub struct VideoEncoder {
    pub codec: String,
    pub params: Vec<String>,
}

/// The codec of `video_encoder`.
pub open spec fn video_codec_of(hardware: bool) -> Seq<char> {
    if hardware {
        "hevc_nvenc"@
    } else {
        "libx264"@
    }
}

/// The options of `video_encoder`.
pub open spec fn video_params_of(hardware: bool, preset: Seq<char>) -> Seq<Seq<char>> {
    if hardware {
        seq![
            "-tune"@,
            "hq"@,
            "-preset"@,
            "p7"@,
            "-rc"@,
            "vbr"@,
            "-multipass"@,
            "fullres"@,
            "-rc-lookahead"@,
            "32"@,
            "-spatial-aq"@,
            "1"@,
            "-cq"@,
            "20"@,
            "-b:v"@,
            "0"@,
        ]
    } else {
        seq!["-crf"@, "18"@, "-preset"@, preset]
    }
}

/// Chooses the video encoder: hardware HEVC where available, else libx264
/// with `software_preset` (`"medium"` for most tools).
pub fn video_encoder(hardware: bool, software_preset: &str) -> (e: VideoEncoder)
    ensures
        e.codec@ == video_codec_of(hardware),
        e.params.deep_view() == video_params_of(hardware, software_preset@),
{
    let mut params: Vec<String> = Vec::new();
    if hardware {
        push_arg(&mut params, "-tune");
        push_arg(&mut params, "hq");
        push_arg(&mut params, "-preset");
        push_arg(&mut params, "p7");
        push_arg(&mut params, "-rc");
        push_arg(&mut params, "vbr");
        push_arg(&mut params, "-multipass");
        push_arg(&mut params, "fullres");
        push_arg(&mut params, "-rc-lookahead");
        push_arg(&mut params, "32");
        push_arg(&mut params, "-spatial-aq");
        push_arg(&mut params, "1");
        push_arg(&mut params, "-cq");
        push_arg(&mut params, "20");
        push_arg(&mut params, "-b:v");
        push_arg(&mut params, "0");
        assert(params.deep_view() =~= video_params_of(hardware, software_preset@));
        VideoEncoder { codec: String::from_str("hevc_nvenc"), params }
    } else {
        push_arg(&mut params, "-crf");
        push_arg(&mut params, "18");
        push_arg(&mut params, "-preset");
        push_arg(&mut params, software_preset);
        assert(params.deep_view() =~= video_params_of(hardware, software_preset@));
        VideoEncoder { codec: String::from_str("libx264"), params }
    }
}

/// The options of `transition_encoder`.
pub open spec fn transition_params_of(hardware: bool) -> Seq<Seq<char>> {
    if hardware {
        seq![
            "-tune"@,
            "hq"@,
            "-preset"@,
            "p7"@,
            "-rc"@,
            "vbr"@,
            "-multipass"@,
            "fullres"@,
            "-cq"@,
            "20"@,
            "-b:v"@,
            "0"@,
        ]
    } else {
        seq!["-crf"@, "18"@]
    }
}

/// The video encoder of a transition between two clips: hardware HEVC in
/// high-quality VBR mode where available, else libx264 at CRF 18.
pub fn transition_encoder(hardware: bool) -> (e: VideoEncoder)
    ensures
        e.codec@ == video_codec_of(hardware),
        e.params.deep_view() == transition_params_of(hardware),
{
    let mut params: Vec<String> = Vec::new();
    if hardware {
        push_arg(&mut params, "-tune");
        push_arg(&mut params, "hq");
        push_arg(&mut params, "-preset");
        push_arg(&mut params, "p7");
        push_arg(&mut params, "-rc");
        push_arg(&mut params, "vbr");
        push_arg(&mut params, "-multipass");
        push_arg(&mut params, "fullres");
        push_arg(&mut params, "-cq");
        push_arg(&mut params, "20");
        push_arg(&mut params, "-b:v");
        push_arg(&mut params, "0");
        assert(params.deep_view() =~= transition_params_of(hardware));
        VideoEncoder { codec: String::from_str("hevc_nvenc"), params }
    } else {
        push_arg(&mut params, "-crf");
        push_arg(&mut params, "18");
        assert(params.deep_view() =~= transition_params_of(hardware));
        VideoEncoder { codec: String::from_str("libx264"), params }
    }
}

/// The options of `chain_encoder`.
pub open spec fn chain_params_of(hardware: bool) -> Seq<Seq<char>> {
    if hardware {
        seq!["-preset"@, "p7"@, "-cq"@, "20"@]
    } else {
        seq!["-preset"@, "medium"@, "-crf"@, "18"@]
    }
}

/// The video encoder of a chain of transitions over many clips: hardware
/// HEVC at preset p7 and CQ 20 where available, else libx264 at CRF 18.
pub fn chain_encoder(hardware: bool) -> (e: VideoEncoder)
    ensures
        e.codec@ == video_codec_of(hardware),
        e.params.deep_view() == chain_params_of(hardware),
{
    let mut params: Vec<String> = Vec::new();
    if hardware {
        push_arg(&mut params, "-preset");
        push_arg(&mut params, "p7");
        push_arg(&mut params, "-cq");
        push_arg(&mut params, "20");
        assert(params.deep_view() =~= chain_params_of(hardware));
        VideoEncoder { codec: String::from_str("hevc_nvenc"), params }
    } else {
        push_arg(&mut params, "-preset");
        push_arg(&mut params, "medium");
        push_arg(&mut params, "-crf");
        push_arg(&mut params, "18");
        assert(params.deep_view() =~= chain_params_of(hardware));
        VideoEncoder { codec: String::from_str("libx264"), params }
    }
}

/// The options of `stack_encoder`.
pub open spec fn stack_params_of(hardware: bool) -> Seq<Seq<char>> {
    if hardware {
        seq!["-cq"@, "20"@, "-preset"@, "p4"@]
    } else {
        seq!["-crf"@, "16"@, "-preset"@, "medium"@]
    }
}

/// The video encoder of two videos set side by side: hardware HEVC at CQ 20
/// and preset p4 where available, else libx264 at CRF 16, preset medium.
pub fn stack_encoder(hardware: bool) -> (e: VideoEncoder)
    ensures
        e.codec@ == video_codec_of(hardware),
        e.params.deep_view() == stack_params_of(hardware),
{
    let mut params: Vec<String> = Vec::new();
    if hardware {
        push_arg(&mut params, "-cq");
        push_arg(&mut params, "20");
        push_arg(&mut params, "-preset");
        push_arg(&mut params, "p4");
        assert(params.deep_view() =~= stack_params_of(hardware));
        VideoEncoder { codec: String::from_str("hevc_nvenc"), params }
    } else {
        push_arg(&mut params, "-crf");
        push_arg(&mut params, "16");
        push_arg(&mut params, "-preset");
        push_arg(&mut params, "medium");
        assert(params.deep_view() =~= stack_params_of(hardware));
        VideoEncoder { codec: String::from_str("libx264"), params }
    }
}

/// The options of `still_motion_encoder`.
pub open spec fn still_motion_params_of(hardware: bool) -> Seq<Seq<char>> {
    if hardware {
        video_params_of(true, "medium"@)
    } else {
        seq!["-crf"@, "18"@]
    }
}

/// The video encoder of a zoom over a still image: the hardware options of
/// `video_encoder` where hardware encoding is available, else libx264 at
/// CRF 18 with ffmpeg's default preset.
pub fn still_motion_encoder(hardware: bool) -> (e: VideoEncoder)
    ensures
        e.codec@ == video_codec_of(hardware),
        e.params.deep_view() == still_motion_params_of(hardware),
{
    if hardware {
        video_encoder(true, "medium")
    } else {
        let mut params: Vec<String> = Vec::new();
        push_arg(&mut params, "-crf");
        push_arg(&mut params, "18");
        assert(params.deep_view() =~= still_motion_params_of(hardware));
        VideoEncoder { codec: String::from_str("libx264"), params }
    }
}

/// The options of `inset_encoder`.
pub open spec fn inset_params_of(hardware: bool) -> Seq<Seq<char>> {
    if hardware {
        seq![
            "-tune"@,
            "hq"@,
            "-preset"@,
            "p7"@,
            "-rc"@,
            "vbr"@,
            "-multipass"@,
            "fullres"@,
            "-cq"@,
            "20"@,
            "-b:v"@,
            "0"@,
            "-rc-lookahead"@,
            "32"@,
            "-spatial-aq"@,
            "1"@,
        ]
    } else {
        seq!["-crf"@, "18"@]
    }
}

/// The video encoder of a picture-in-picture overlay: hardware HEVC in
/// high-quality VBR mode with look-ahead and spatial AQ where available,
/// else libx264 at CRF 18.
pub fn inset_encoder(hardware: bool) -> (e: VideoEncoder)
    ensures
        e.codec@ == video_codec_of(hardware),
        e.params.deep_view() == inset_params_of(hardware),
{
    let mut params: Vec<String> = Vec::new();
    if hardware {
        push_arg(&mut params, "-tune");
        push_arg(&mut params, "hq");
        push_arg(&mut params, "-preset");
        push_arg(&mut params, "p7");
        push_arg(&mut params, "-rc");
        push_arg(&mut params, "vbr");
        push_arg(&mut params, "-multipass");
        push_arg(&mut params, "fullres");
        push_arg(&mut params, "-cq");
        push_arg(&mut params, "20");
        push_arg(&mut params, "-b:v");
        push_arg(&mut params, "0");
        push_arg(&mut params, "-rc-lookahead");
        push_arg(&mut params, "32");
        push_arg(&mut params, "-spatial-aq");
        push_arg(&mut params, "1");
        assert(params.deep_view() =~= inset_params_of(hardware));
        VideoEncoder { codec: String::from_str("hevc_nvenc"), params }
    } else {
        push_arg(&mut params, "-crf");
        push_arg(&mut params, "18");
        assert(params.deep_view() =~= inset_params_of(hardware));
        VideoEncoder { codec: String::from_str("libx264"), params }
    }
}

/// How a clip of a given file type is cut: re-encoded as video, as WebM, as
/// AAC audio (with the best AAC encoder available), as another audio format
/// with a fixed codec and container, or stream-copied.
pub enum TrimRunner {
    Video,
    Webm,
    AacAudio,
    Audio { codec: String, format: String },
    Fallback,
}

/// The view of a `TrimRunner`.
pub enum TrimRunnerView {
    Video,
    Webm,
    AacAudio,
    Audio { codec: Seq<char>, format: Seq<char> },
    Fallback,
}

impl View for TrimRunner {
    type V = TrimRunnerView;

    open spec fn view(&self) -> TrimRunnerView {
        match self {
            TrimRunner::Video => TrimRunnerView::Video,
            TrimRunner::Webm => TrimRunnerView::Webm,
            TrimRunner::AacAudio => TrimRunnerView::AacAudio,
            TrimRunner::Audio { codec, format } => TrimRunnerView::Audio {
                codec: codec@,
                format: format@,
            },
            TrimRunner::Fallback => TrimRunnerView::Fallback,
        }
    }
}

/// The runner for a (lower-cased) extension: mp4, m4v, mov and mkv are video,
/// webm is WebM, m4a and aac are AAC audio, mp3, wav and ogg are audio with
/// libmp3lame, pcm_s16le and libopus, and anything else is stream-copied.
pub open spec fn trim_runner_of(ext: Seq<char>) -> TrimRunnerView {
    if ext == "mp4"@ || ext == "m4v"@ || ext == "mov"@ || ext == "mkv"@ {
        TrimRunnerView::Video
    } else if ext == "webm"@ {
        TrimRunnerView::Webm
    } else if ext == "m4a"@ || ext == "aac"@ {
        TrimRunnerView::AacAudio
    } else if ext == "mp3"@ {
        TrimRunnerView::Audio { codec: "libmp3lame"@, format: "mp3"@ }
    } else if ext == "wav"@ {
        TrimRunnerView::Audio { codec: "pcm_s16le"@, format: "wav"@ }
    } else if ext == "ogg"@ {
        TrimRunnerView::Audio { codec: "libopus"@, format: "ogg"@ }
    } else {
        TrimRunnerView::Fallback
    }
}

/// Chooses how to cut a clip from the extension of its file (compared in lower
/// case).
pub fn trim_runner(extension: &str) -> (r: TrimRunner)
    ensures
        r@ == trim_runner_of(lowercase_of(extension@)),
        all_ascii(extension@) ==> r@ == trim_runner_of(ascii_fold(extension@)),
{
    let e = to_lowercase(extension);
    let e = e.as_str();
    if same_text(e, "mp4") || same_text(e, "m4v") || same_text(e, "mov") || same_text(e, "mkv") {
        TrimRunner::Video
    } else if same_text(e, "webm") {
        TrimRunner::Webm
    } else if same_text(e, "m4a") || same_text(e, "aac") {
        TrimRunner::AacAudio
    } else if same_text(e, "mp3") {
        TrimRunner::Audio {
            codec: String::from_str("libmp3lame"),
            format: String::from_str("mp3"),
        }
    } else if same_text(e, "wav") {
        TrimRunner::Audio { codec: String::from_str("pcm_s16le"), format: String::from_str("wav") }
    } else if same_text(e, "ogg") {
        TrimRunner::Audio { codec: String::from_str("libopus"), format: String::from_str("ogg") }
    } else {
        TrimRunner::Fallback
    }
}

/// The AAC encoder to use: libfdk_aac where ffmpeg has it, else the built-in
/// aac.
pub fn aac_encoder(fdk_available: bool) -> (r: String)
    ensures
        fdk_available ==> r@ == "libfdk_aac"@,
        !fdk_available ==> r@ == "aac"@,
{
    if fdk_available {
        String::from_str("libfdk_aac")
    } else {
        String::from_str("aac")
    }
}

/// The common head of the cutting commands: quiet, with progress.
pub open spec fn quiet_head() -> Seq<Seq<char>> {
    seq!["-hide_banner"@, "-stats"@, "-v"@, "error"@]
}

/// Input seeking from `start` for `duration` (`-ss start -i in -t duration`).
pub open spec fn input_seek(start: Seq<char>, infile: Seq<char>, duration: Seq<char>) -> Seq<
    Seq<char>,
> {
    seq!["-ss"@, start, "-i"@, infile, "-t"@, duration]
}

/// Output seeking from `start` to `end` (`-i in -ss start -to end`).
pub open spec fn output_seek(infile: Seq<char>, start: Seq<char>, end: Seq<char>) -> Seq<
    Seq<char>,
> {
    seq!["-i"@, infile, "-ss"@, start, "-to"@, end]
}

/// `-f ext`, except for Matroska, whose container ffmpeg picks itself.
pub open spec fn container_flag(ext: Seq<char>) -> Seq<Seq<char>> {
    if ext != "mkv"@ {
        seq!["-f"@, ext]
    } else {
        Seq::<Seq<char>>::empty()
    }
}

fn push_container_flag(v: &mut Vec<String>, ext: &str)
    ensures
        final(v).deep_view() == old(v).deep_view() + container_flag(ext@),
{
    if !same_text(ext, "mkv") {
        push_arg(v, "-f");
        push_arg(v, ext);
        assert(final(v).deep_view() =~= old(v).deep_view() + container_flag(ext@));
    } else {
        assert(final(v).deep_view() =~= old(v).deep_view() + container_flag(ext@));
    }
}

fn push_quiet_head(v: &mut Vec<String>)
    ensures
        final(v).deep_view() == old(v).deep_view() + quiet_head(),
{
    push_arg(v, "-hide_banner");
    push_arg(v, "-stats");
    push_arg(v, "-v");
    push_arg(v, "error");
    assert(final(v).deep_view() =~= old(v).deep_view() + quiet_head());
}

fn push_input_seek(v: &mut Vec<String>, start: &str, infile: &str, duration: &str)
    ensures
        final(v).deep_view() == old(v).deep_view() + input_seek(start@, infile@, duration@),
{
    push_arg(v, "-ss");
    push_arg(v, start);
    push_arg(v, "-i");
    push_arg(v, infile);
    push_arg(v, "-t");
    push_arg(v, duration);
    assert(final(v).deep_view() =~= old(v).deep_view() + input_seek(start@, infile@, duration@));
}

fn push_output_seek(v: &mut Vec<String>, infile: &str, start: &str, end: &str)
    ensures
        final(v).deep_view() == old(v).deep_view() + output_seek(infile@, start@, end@),
{
    push_arg(v, "-i");
    push_arg(v, infile);
    push_arg(v, "-ss");
    push_arg(v, start);
    push_arg(v, "-to");
    push_arg(v, end);
    assert(final(v).deep_view() =~= old(v).deep_view() + output_seek(infile@, start@, end@));
}

/// The arguments that cut a video clip by start and duration, re-encoding
/// with libx264 and the given AAC encoder.
pub open spec fn clip_video_args_of(
    start: Seq<char>,
    infile: Seq<char>,
    duration: Seq<char>,
    aac: Seq<char>,
    ext: Seq<char>,
    out: Seq<char>,
) -> Seq<Seq<char>> {
    quiet_head() + input_seek(start, infile, duration) + seq![
        "-c:a"@,
        aac,
        "-c:v"@,
        "libx264"@,
        "-profile:v"@,
        "high"@,
        "-pix_fmt"@,
        "yuv420p"@,
        "-movflags"@,
        "+faststart"@,
    ] + container_flag(ext) + seq![out]
}

/// Builds the arguments that cut a video clip by start and duration.
pub fn clip_video_args(
    start: &str,
    infile: &str,
    duration: &str,
    aac: &str,
    ext: &str,
    out: &str,
) -> (v: Vec<String>)
    ensures
        v.deep_view() == clip_video_args_of(start@, infile@, duration@, aac@, ext@, out@),
{
    let mut v: Vec<String> = Vec::new();
    push_quiet_head(&mut v);
    push_input_seek(&mut v, start, infile, duration);
    push_arg(&mut v, "-c:a");
    push_arg(&mut v, aac);
    push_arg(&mut v, "-c:v");
    push_arg(&mut v, "libx264");
    push_arg(&mut v, "-profile:v");
    push_arg(&mut v, "high");
    push_arg(&mut v, "-pix_fmt");
    push_arg(&mut v, "yuv420p");
    push_arg(&mut v, "-movflags");
    push_arg(&mut v, "+faststart");
    push_container_flag(&mut v, ext);
    push_arg(&mut v, out);
    assert(v.deep_view() =~= clip_video_args_of(start@, infile@, duration@, aac@, ext@, out@));
    v
}

/// The arguments that cut a WebM clip by start and duration (VP9 and Opus).
pub open spec fn clip_webm_args_of(
    start: Seq<char>,
    infile: Seq<char>,
    duration: Seq<char>,
    out: Seq<char>,
) -> Seq<Seq<char>> {
    quiet_head() + input_seek(start, infile, duration) + seq![
        "-c:a"@,
        "libopus"@,
        "-c:v"@,
        "vp9"@,
        "-f"@,
        "webm"@,
        out,
    ]
}

/// Builds the arguments that cut a WebM clip by start and duration.
pub fn clip_webm_args(start: &str, infile: &str, duration: &str, out: &str) -> (v: Vec<String>)
    ensures
        v.deep_view() == clip_webm_args_of(start@, infile@, duration@, out@),
{
    let mut v: Vec<String> = Vec::new();
    push_quiet_head(&mut v);
    push_input_seek(&mut v, start, infile, duration);
    push_arg(&mut v, "-c:a");
    push_arg(&mut v, "libopus");
    push_arg(&mut v, "-c:v");
    push_arg(&mut v, "vp9");
    push_arg(&mut v, "-f");
    push_arg(&mut v, "webm");
    push_arg(&mut v, out);
    assert(v.deep_view() =~= clip_webm_args_of(start@, infile@, duration@, out@));
    v
}

/// The arguments that cut an audio clip by start and duration.
pub open spec fn clip_audio_args_of(
    start: Seq<char>,
    infile: Seq<char>,
    duration: Seq<char>,
    codec: Seq<char>,
    format: Seq<char>,
    out: Seq<char>,
) -> Seq<Seq<char>> {
    quiet_head() + input_seek(start, infile, duration) + seq!["-c:a"@, codec, "-f"@, format, out]
}

/// Builds the arguments that cut an audio clip by start and duration.
pub fn clip_audio_args(
    start: &str,
    infile: &str,
    duration: &str,
    codec: &str,
    format: &str,
    out: &str,
) -> (v: Vec<String>)
    ensures
        v.deep_view() == clip_audio_args_of(start@, infile@, duration@, codec@, format@, out@),
{
    let mut v: Vec<String> = Vec::new();
    push_quiet_head(&mut v);
    push_input_seek(&mut v, start, infile, duration);
    push_arg(&mut v, "-c:a");
    push_arg(&mut v, codec);
    push_arg(&mut v, "-f");
    push_arg(&mut v, format);
    push_arg(&mut v, out);
    assert(v.deep_view() =~= clip_audio_args_of(start@, infile@, duration@, codec@, format@, out@));
    v
}

/// The arguments that cut any other clip by start and duration, copying the
/// streams.
pub open spec fn clip_copy_args_of(
    start: Seq<char>,
    infile: Seq<char>,
    duration: Seq<char>,
    out: Seq<char>,
) -> Seq<Seq<char>> {
    quiet_head() + input_seek(start, infile, duration) + seq!["-c"@, "copy"@, out]
}

/// Builds the arguments that cut any other clip by start and duration.
pub fn clip_copy_args(start: &str, infile: &str, duration: &str, out: &str) -> (v: Vec<String>)
    ensures
        v.deep_view() == clip_copy_args_of(start@, infile@, duration@, out@),
{
    let mut v: Vec<String> = Vec::new();
    push_quiet_head(&mut v);
    push_input_seek(&mut v, start, infile, duration);
    push_arg(&mut v, "-c");
    push_arg(&mut v, "copy");
    push_arg(&mut v, out);
    assert(v.deep_view() =~= clip_copy_args_of(start@, infile@, duration@, out@));
    v
}

/// The arguments that cut a video clip from `start` to `end` (output
/// seeking), with the chosen video encoder and AAC encoder, overwriting.
pub open spec fn span_video_args_of(
    infile: Seq<char>,
    start: Seq<char>,
    end: Seq<char>,
    hardware: bool,
    aac: Seq<char>,
    ext: Seq<char>,
    out: Seq<char>,
) -> Seq<Seq<char>> {
    quiet_head() + output_seek(infile, start, end) + seq!["-c:v"@, video_codec_of(hardware)]
        + video_params_of(hardware, "medium"@) + seq![
        "-c:a"@,
        aac,
        "-pix_fmt"@,
        "yuv420p"@,
        "-movflags"@,
        "+faststart"@,
        "-y"@,
    ] + container_flag(ext) + seq![out]
}

/// Builds the arguments that cut a video clip from `start` to `end`.
pub fn span_video_args(
    infile: &str,
    start: &str,
    end: &str,
    hardware: bool,
    aac: &str,
    ext: &str,
    out: &str,
) -> (v: Vec<String>)
    ensures
        v.deep_view() == span_video_args_of(infile@, start@, end@, hardware, aac@, ext@, out@),
{
    let enc = video_encoder(hardware, "medium");
    let mut v: Vec<String> = Vec::new();
    push_quiet_head(&mut v);
    push_output_seek(&mut v, infile, start, end);
    push_arg(&mut v, "-c:v");
    push_arg(&mut v, enc.codec.as_str());
    push_args(&mut v, &enc.params);
    push_arg(&mut v, "-c:a");
    push_arg(&mut v, aac);
    push_arg(&mut v, "-pix_fmt");
    push_arg(&mut v, "yuv420p");
    push_arg(&mut v, "-movflags");
    push_arg(&mut v, "+faststart");
    push_arg(&mut v, "-y");
    push_container_flag(&mut v, ext);
    push_arg(&mut v, out);
    assert(v.deep_view() =~= span_video_args_of(infile@, start@, end@, hardware, aac@, ext@, out@));
    v
}

/// The arguments that cut a WebM clip from `start` to `end`.
pub open spec fn span_webm_args_of(
    infile: Seq<char>,
    start: Seq<char>,
    end: Seq<char>,
    out: Seq<char>,
) -> Seq<Seq<char>> {
    quiet_head() + output_seek(infile, start, end) + seq![
        "-c:v"@,
        "libvpx-vp9"@,
        "-c:a"@,
        "libopus"@,
        "-f"@,
        "webm"@,
        "-y"@,
        out,
    ]
}

/// Builds the arguments that cut a WebM clip from `start` to `end`.
pub fn span_webm_args(infile: &str, start: &str, end: &str, out: &str) -> (v: Vec<String>)
    ensures
        v.deep_view() == span_webm_args_of(infile@, start@, end@, out@),
{
    let mut v: Vec<String> = Vec::new();
    push_quiet_head(&mut v);
    push_output_seek(&mut v, infile, start, end);
    push_arg(&mut v, "-c:v");
    push_arg(&mut v, "libvpx-vp9");
    push_arg(&mut v, "-c:a");
    push_arg(&mut v, "libopus");
    push_arg(&mut v, "-f");
    push_arg(&mut v, "webm");
    push_arg(&mut v, "-y");
    push_arg(&mut v, out);
    assert(v.deep_view() =~= span_webm_args_of(infile@, start@, end@, out@));
    v
}

/// The arguments that cut an audio clip from `start` to `end`.
pub open spec fn span_audio_args_of(
    infile: Seq<char>,
    start: Seq<char>,
    end: Seq<char>,
    codec: Seq<char>,
    format: Seq<char>,
    out: Seq<char>,
) -> Seq<Seq<char>> {
    quiet_head() + output_seek(infile, start, end) + seq!["-c:a"@, codec, "-f"@, format, "-y"@, out]
}

/// Builds the arguments that cut an audio clip from `start` to `end`.
pub fn span_audio_args(
    infile: &str,
    start: &str,
    end: &str,
    codec: &str,
    format: &str,
    out: &str,
) -> (v: Vec<String>)
    ensures
        v.deep_view() == span_audio_args_of(infile@, start@, end@, codec@, format@, out@),
{
    let mut v: Vec<String> = Vec::new();
    push_quiet_head(&mut v);
    push_output_seek(&mut v, infile, start, end);
    push_arg(&mut v, "-c:a");
    push_arg(&mut v, codec);
    push_arg(&mut v, "-f");
    push_arg(&mut v, format);
    push_arg(&mut v, "-y");
    push_arg(&mut v, out);
    assert(v.deep_view() =~= span_audio_args_of(infile@, start@, end@, codec@, format@, out@));
    v
}

/// The arguments that cut any other clip from `start` to `end`, copying the
/// streams.
pub open spec fn span_copy_args_of(
    infile: Seq<char>,
    start: Seq<char>,
    end: Seq<char>,
    out: Seq<char>,
) -> Seq<Seq<char>> {
    quiet_head() + output_seek(infile, start, end) + seq!["-c"@, "copy"@, "-y"@, out]
}

/// Builds the arguments that cut any other clip from `start` to `end`.
pub fn span_copy_args(infile: &str, start: &str, end: &str, out: &str) -> (v: Vec<String>)
    ensures
        v.deep_view() == span_copy_args_of(infile@, start@, end@, out@),
{
    let mut v: Vec<String> = Vec::new();
    push_quiet_head(&mut v);
    push_output_seek(&mut v, infile, start, end);
    push_arg(&mut v, "-c");
    push_arg(&mut v, "copy");
    push_arg(&mut v, "-y");
    push_arg(&mut v, out);
    assert(v.deep_view() =~= span_copy_args_of(infile@, start@, end@, out@));
    v
}

/// The head of the scene cutting commands: quiet, with progress.
pub open spec fn scene_head() -> Seq<Seq<char>> {
    seq!["-hide_banner"@, "-v"@, "error"@, "-stats"@]
}

/// The tail of the scene cutting commands after the video options.
pub open spec fn scene_tail(overwrite: bool, out: Seq<char>) -> Seq<Seq<char>> {
    seq!["-pix_fmt"@, "yuv420p"@, "-c:a"@, "aac"@, "-movflags"@, "+faststart"@] + (if overwrite {
        seq!["-y"@]
    } else {
        Seq::<Seq<char>>::empty()
    }) + seq![out]
}

fn push_scene_head(v: &mut Vec<String>)
    ensures
        final(v).deep_view() == old(v).deep_view() + scene_head(),
{
    push_arg(v, "-hide_banner");
    push_arg(v, "-v");
    push_arg(v, "error");
    push_arg(v, "-stats");
    assert(final(v).deep_view() =~= old(v).deep_view() + scene_head());
}

fn push_scene_tail(v: &mut Vec<String>, overwrite: bool, out: &str)
    ensures
        final(v).deep_view() == old(v).deep_view() + scene_tail(overwrite, out@),
{
    push_arg(v, "-pix_fmt");
    push_arg(v, "yuv420p");
    push_arg(v, "-c:a");
    push_arg(v, "aac");
    push_arg(v, "-movflags");
    push_arg(v, "+faststart");
    if overwrite {
        push_arg(v, "-y");
    }
    push_arg(v, out);
    assert(final(v).deep_view() =~= old(v).deep_view() + scene_tail(overwrite, out@));
}

/// The arguments that cut one scene of a cut list by start and duration
/// (input seeking), re-encoding with the chosen encoder.
pub open spec fn scene_clip_args_of(
    start: Seq<char>,
    duration: Seq<char>,
    infile: Seq<char>,
    hardware: bool,
    overwrite: bool,
    out: Seq<char>,
) -> Seq<Seq<char>> {
    scene_head() + seq!["-ss"@, start, "-t"@, duration, "-i"@, infile, "-c:v"@, video_codec_of(hardware)]
        + video_params_of(hardware, "medium"@) + scene_tail(overwrite, out)
}

/// Builds the arguments that cut one scene by start and duration.
pub fn scene_clip_args(
    start: &str,
    duration: &str,
    infile: &str,
    hardware: bool,
    overwrite: bool,
    out: &str,
) -> (v: Vec<String>)
    ensures
        v.deep_view() == scene_clip_args_of(start@, duration@, infile@, hardware, overwrite, out@),
{
    let enc = video_encoder(hardware, "medium");
    let mut v: Vec<String> = Vec::new();
    push_scene_head(&mut v);
    push_arg(&mut v, "-ss");
    push_arg(&mut v, start);
    push_arg(&mut v, "-t");
    push_arg(&mut v, duration);
    push_arg(&mut v, "-i");
    push_arg(&mut v, infile);
    push_arg(&mut v, "-c:v");
    push_arg(&mut v, enc.codec.as_str());
    push_args(&mut v, &enc.params);
    push_scene_tail(&mut v, overwrite, out);
    assert(v.deep_view() =~= scene_clip_args_of(
        start@,
        duration@,
        infile@,
        hardware,
        overwrite,
        out@,
    ));
    v
}

/// The arguments that cut one scene from `start` to `end` (output seeking),
/// overwriting the output.
pub open spec fn scene_span_args_of(
    infile: Seq<char>,
    start: Seq<char>,
    end: Seq<char>,
    hardware: bool,
    out: Seq<char>,
) -> Seq<Seq<char>> {
    scene_head() + output_seek(infile, start, end) + seq!["-c:v"@, video_codec_of(hardware)]
        + video_params_of(hardware, "medium"@) + scene_tail(true, out)
}

/// Builds the arguments that cut one scene from `start` to `end`.
pub fn scene_span_args(infile: &str, start: &str, end: &str, hardware: bool, out: &str) -> (v: Vec<
    String,
>)
    ensures
        v.deep_view() == scene_span_args_of(infile@, start@, end@, hardware, out@),
{
    let enc = video_encoder(hardware, "medium");
    let mut v: Vec<String> = Vec::new();
    push_scene_head(&mut v);
    push_output_seek(&mut v, infile, start, end);
    push_arg(&mut v, "-c:v");
    push_arg(&mut v, enc.codec.as_str());
    push_args(&mut v, &enc.params);
    push_scene_tail(&mut v, true, out);
    assert(v.deep_view() =~= scene_span_args_of(infile@, start@, end@, hardware, out@));
    v
}

/// One `-ss start -to end -i url` input per stream URL.
pub open spec fn remote_inputs(start: Seq<char>, end: Seq<char>, urls: Seq<Seq<char>>) -> Seq<
    Seq<char>,
>
    decreases urls.len(),
{
    if urls.len() == 0 {
        Seq::<Seq<char>>::empty()
    } else {
        remote_inputs(start, end, urls.drop_last()) + seq!["-ss"@, start, "-to"@, end, "-i"@, urls.last()]
    }
}

/// Where the video and the audio come as separate streams, the first input
/// gives the video and the second the audio.
pub open spec fn remote_maps(count: nat) -> Seq<Seq<char>> {
    if count > 1 {
        seq!["-map"@, "0:v:0"@, "-map"@, "1:a:0"@]
    } else {
        Seq::<Seq<char>>::empty()
    }
}

fn push_remote_inputs(v: &mut Vec<String>, start: &str, end: &str, urls: &Vec<String>)
    ensures
        final(v).deep_view() == old(v).deep_view() + remote_inputs(start@, end@, urls.deep_view())
            + remote_maps(urls@.len()),
{
    let ghost before = v.deep_view();
    let ghost ud = urls.deep_view();
    let n = urls.len();
    let mut i: usize = 0;
    assert(ud.take(0) =~= Seq::<Seq<char>>::empty());
    assert(before + remote_inputs(start@, end@, ud.take(0)) =~= before);
    while i < n
        invariant
            n == ud.len(),
            ud == urls.deep_view(),
            i <= n,
            v.deep_view() == before + remote_inputs(start@, end@, ud.take(i as int)),
        decreases n - i,
    {
        assert(ud.take(i + 1).drop_last() =~= ud.take(i as int));
        assert(urls[i as int]@ == ud[i as int]);
        let ghost mid = v.deep_view();
        push_arg(v, "-ss");
        push_arg(v, start);
        push_arg(v, "-to");
        push_arg(v, end);
        push_arg(v, "-i");
        push_arg(v, urls[i].as_str());
        assert(v.deep_view() =~= mid + seq!["-ss"@, start@, "-to"@, end@, "-i"@, ud[i as int]]);
        i = i + 1;
        assert(v.deep_view() =~= before + remote_inputs(start@, end@, ud.take(i as int)));
    }
    assert(ud.take(n as int) =~= ud);
    let ghost mid = v.deep_view();
    if n > 1 {
        push_arg(v, "-map");
        push_arg(v, "0:v:0");
        push_arg(v, "-map");
        push_arg(v, "1:a:0");
    }
    assert(v.deep_view() =~= mid + remote_maps(urls@.len()));
}

/// The options of the encoder for remote clips.
pub open spec fn remote_params_of(hardware: bool) -> Seq<Seq<char>> {
    if hardware {
        seq!["-tune"@, "hq"@, "-preset"@, "p7"@, "-rc"@, "vbr"@, "-cq"@, "20"@, "-b:v"@, "0"@]
    } else {
        seq!["-crf"@, "18"@, "-preset"@, "medium"@]
    }
}

/// The arguments that cut an MP4 clip from remote streams.
pub open spec fn remote_mp4_args_of(
    start: Seq<char>,
    end: Seq<char>,
    urls: Seq<Seq<char>>,
    hardware: bool,
    out: Seq<char>,
) -> Seq<Seq<char>> {
    seq!["-hide_banner"@, "-stats"@, "-v"@, "error"@] + remote_inputs(start, end, urls)
        + remote_maps(urls.len()) + seq!["-c:v"@, video_codec_of(hardware)] + remote_params_of(
        hardware,
    ) + seq!["-c:a"@, "aac"@, "-pix_fmt"@, "yuv420p"@, "-movflags"@, "+faststart"@, out]
}

/// Builds the arguments that cut an MP4 clip from remote streams.
pub fn remote_mp4_args(start: &str, end: &str, urls: &Vec<String>, hardware: bool, out: &str) -> (v:
    Vec<String>)
    ensures
        v.deep_view() == remote_mp4_args_of(start@, end@, urls.deep_view(), hardware, out@),
{
    let mut v: Vec<String> = Vec::new();
    push_quiet_head(&mut v);
    push_remote_inputs(&mut v, start, end, urls);
    push_arg(&mut v, "-c:v");
    let ghost mid = v.deep_view();
    if hardware {
        push_arg(&mut v, "hevc_nvenc");
        push_arg(&mut v, "-tune");
        push_arg(&mut v, "hq");
        push_arg(&mut v, "-preset");
        push_arg(&mut v, "p7");
        push_arg(&mut v, "-rc");
        push_arg(&mut v, "vbr");
        push_arg(&mut v, "-cq");
        push_arg(&mut v, "20");
        push_arg(&mut v, "-b:v");
        push_arg(&mut v, "0");
    } else {
        push_arg(&mut v, "libx264");
        push_arg(&mut v, "-crf");
        push_arg(&mut v, "18");
        push_arg(&mut v, "-preset");
        push_arg(&mut v, "medium");
    }
    assert(v.deep_view() =~= mid + seq![video_codec_of(hardware)] + remote_params_of(hardware));
    push_arg(&mut v, "-c:a");
    push_arg(&mut v, "aac");
    push_arg(&mut v, "-pix_fmt");
    push_arg(&mut v, "yuv420p");
    push_arg(&mut v, "-movflags");
    push_arg(&mut v, "+faststart");
    push_arg(&mut v, out);
    assert(v.deep_view() =~= remote_mp4_args_of(start@, end@, urls.deep_view(), hardware, out@));
    v
}

/// The arguments that cut a WebM clip from remote streams.
pub open spec fn remote_webm_args_of(
    start: Seq<char>,
    end: Seq<char>,
    urls: Seq<Seq<char>>,
    out: Seq<char>,
) -> Seq<Seq<char>> {
    seq!["-hide_banner"@, "-stats"@, "-v"@, "error"@] + remote_inputs(start, end, urls)
        + remote_maps(urls.len()) + seq!["-c:v"@, "libvpx-vp9"@, "-c:a"@, "libopus"@, out]
}

/// Builds the arguments that cut a WebM clip from remote streams.
pub fn remote_webm_args(start: &str, end: &str, urls: &Vec<String>, out: &str) -> (v: Vec<String>)
    ensures
        v.deep_view() == remote_webm_args_of(start@, end@, urls.deep_view(), out@),
{
    let mut v: Vec<String> = Vec::new();
    push_quiet_head(&mut v);
    push_remote_inputs(&mut v, start, end, urls);
    push_arg(&mut v, "-c:v");
    push_arg(&mut v, "libvpx-vp9");
    push_arg(&mut v, "-c:a");
    push_arg(&mut v, "libopus");
    push_arg(&mut v, out);
    assert(v.deep_view() =~= remote_webm_args_of(start@, end@, urls.deep_view(), out@));
    v
}

/// Whether remote streams are cut as WebM: where the remote file is a WebM.
pub fn remote_is_webm(extension: &str) -> (b: bool)
    ensures
        b == (extension@ == "webm"@),
{
    same_text(extension, "webm")
}

/// The video codec of a cut scene follows the hardware flag: after the input
/// come `-c:v libx264 -crf 18 -preset medium` where hardware encoding is not
/// available, and `-c:v hevc_nvenc` with its high-quality VBR options where it
/// is; the pixel format follows.
pub proof fn lemma_scene_clip_video_codec(
    start: Seq<char>,
    duration: Seq<char>,
    infile: Seq<char>,
    hardware: bool,
    overwrite: bool,
    out: Seq<char>,
)
    ensures
        ({
            let a = scene_clip_args_of(start, duration, infile, hardware, overwrite, out);
            &&& a.subrange(0, 11) == seq![
                "-hide_banner"@,
                "-v"@,
                "error"@,
                "-stats"@,
                "-ss"@,
                start,
                "-t"@,
                duration,
                "-i"@,
                infile,
                "-c:v"@,
            ]
            &&& !hardware ==> a.subrange(11, 16) == seq!["libx264"@, "-crf"@, "18"@, "-preset"@, "medium"@] && a[16] == "-pix_fmt"@
            &&& hardware ==> a.subrange(11, 28) == seq!["hevc_nvenc"@, "-tune"@, "hq"@, "-preset"@, "p7"@, "-rc"@, "vbr"@, "-multipass"@, "fullres"@, "-rc-lookahead"@, "32"@, "-spatial-aq"@, "1"@, "-cq"@, "20"@, "-b:v"@, "0"@] && a[28] == "-pix_fmt"@
        }),
{
    let a = scene_clip_args_of(start, duration, infile, hardware, overwrite, out);
    assert(a.subrange(0, 11) =~= seq![
        "-hide_banner"@,
        "-v"@,
        "error"@,
        "-stats"@,
        "-ss"@,
        start,
        "-t"@,
        duration,
        "-i"@,
        infile,
        "-c:v"@,
    ]);
    if hardware {
        assert(a.subrange(11, 28) =~= seq!["hevc_nvenc"@, "-tune"@, "hq"@, "-preset"@, "p7"@, "-rc"@, "vbr"@, "-multipass"@, "fullres"@, "-rc-lookahead"@, "32"@, "-spatial-aq"@, "1"@, "-cq"@, "20"@, "-b:v"@, "0"@]);
    } else {
        assert(a.subrange(11, 16) =~= seq!["libx264"@, "-crf"@, "18"@, "-preset"@, "medium"@]);
    }
}

/// The same for a scene cut from `start` to `end`: after `-i infile -ss start
/// -to end` comes the software or the hardware encoder as the flag says.
pub proof fn lemma_scene_span_video_codec(
    infile: Seq<char>,
    start: Seq<char>,
    end: Seq<char>,
    hardware: bool,
    out: Seq<char>,
)
    ensures
        ({
            let a = scene_span_args_of(infile, start, end, hardware, out);
            &&& a.subrange(0, 11) == seq![
                "-hide_banner"@,
                "-v"@,
                "error"@,
                "-stats"@,
                "-i"@,
                infile,
                "-ss"@,
                start,
                "-to"@,
                end,
                "-c:v"@,
            ]
            &&& !hardware ==> a.subrange(11, 16) == seq!["libx264"@, "-crf"@, "18"@, "-preset"@, "medium"@] && a[16] == "-pix_fmt"@
            &&& hardware ==> a.subrange(11, 28) == seq!["hevc_nvenc"@, "-tune"@, "hq"@, "-preset"@, "p7"@, "-rc"@, "vbr"@, "-multipass"@, "fullres"@, "-rc-lookahead"@, "32"@, "-spatial-aq"@, "1"@, "-cq"@, "20"@, "-b:v"@, "0"@] && a[28] == "-pix_fmt"@
        }),
{
    let a = scene_span_args_of(infile, start, end, hardware, out);
    assert(a.subrange(0, 11) =~= seq![
        "-hide_banner"@,
        "-v"@,
        "error"@,
        "-stats"@,
        "-i"@,
        infile,
        "-ss"@,
        start,
        "-to"@,
        end,
        "-c:v"@,
    ]);
    if hardware {
        assert(a.subrange(11, 28) =~= seq!["hevc_nvenc"@, "-tune"@, "hq"@, "-preset"@, "p7"@, "-rc"@, "vbr"@, "-multipass"@, "fullres"@, "-rc-lookahead"@, "32"@, "-spatial-aq"@, "1"@, "-cq"@, "20"@, "-b:v"@, "0"@]);
    } else {
        assert(a.subrange(11, 16) =~= seq!["libx264"@, "-crf"@, "18"@, "-preset"@, "medium"@]);
    }
}

/// The same for a clip cut from `start` to `end` by the trimming tool: after
/// `-i infile -ss start -to end` comes the encoder that the flag chooses, then
/// the audio codec.
pub proof fn lemma_span_video_codec(
    infile: Seq<char>,
    start: Seq<char>,
    end: Seq<char>,
    hardware: bool,
    aac: Seq<char>,
    ext: Seq<char>,
    out: Seq<char>,
)
    ensures
        ({
            let a = span_video_args_of(infile, start, end, hardware, aac, ext, out);
            &&& a.subrange(0, 11) == seq![
                "-hide_banner"@,
                "-stats"@,
                "-v"@,
                "error"@,
                "-i"@,
                infile,
                "-ss"@,
                start,
                "-to"@,
                end,
                "-c:v"@,
            ]
            &&& !hardware ==> a.subrange(11, 18) == seq!["libx264"@, "-crf"@, "18"@, "-preset"@, "medium"@, "-c:a"@, aac]
            &&& hardware ==> a.subrange(11, 30) == seq!["hevc_nvenc"@, "-tune"@, "hq"@, "-preset"@, "p7"@, "-rc"@, "vbr"@, "-multipass"@, "fullres"@, "-rc-lookahead"@, "32"@, "-spatial-aq"@, "1"@, "-cq"@, "20"@, "-b:v"@, "0"@, "-c:a"@, aac]
        }),
{
    let a = span_video_args_of(infile, start, end, hardware, aac, ext, out);
    assert(a.subrange(0, 11) =~= seq![
        "-hide_banner"@,
        "-stats"@,
        "-v"@,
        "error"@,
        "-i"@,
        infile,
        "-ss"@,
        start,
        "-to"@,
        end,
        "-c:v"@,
    ]);
    if hardware {
        assert(a.subrange(11, 30) =~= seq!["hevc_nvenc"@, "-tune"@, "hq"@, "-preset"@, "p7"@, "-rc"@, "vbr"@, "-multipass"@, "fullres"@, "-rc-lookahead"@, "32"@, "-spatial-aq"@, "1"@, "-cq"@, "20"@, "-b:v"@, "0"@, "-c:a"@, aac]);
    } else {
        assert(a.subrange(11, 18) =~= seq!["libx264"@, "-crf"@, "18"@, "-preset"@, "medium"@, "-c:a"@, aac]);
    }
}

/// The remote clip ends with the encoder that the hardware flag chooses, the
/// AAC audio and the output: `-c:v libx264 -crf 18 -preset medium` without
/// hardware encoding, `-c:v hevc_nvenc` with its VBR options with it.
pub proof fn lemma_remote_mp4_video_codec(
    start: Seq<char>,
    end: Seq<char>,
    urls: Seq<Seq<char>>,
    hardware: bool,
    out: Seq<char>,
)
    ensures
        ({
            let a = remote_mp4_args_of(start, end, urls, hardware, out);
            let tail = seq!["-c:a"@, "aac"@, "-pix_fmt"@, "yuv420p"@, "-movflags"@, "+faststart"@, out];
            &&& !hardware ==> a.len() >= 13 && a.skip(a.len() - 13) == seq!["-c:v"@, "libx264"@, "-crf"@, "18"@, "-preset"@, "medium"@] + tail
            &&& hardware ==> a.len() >= 19 && a.skip(a.len() - 19) == seq![
                "-c:v"@,
                "hevc_nvenc"@,
                "-tune"@,
                "hq"@,
                "-preset"@,
                "p7"@,
                "-rc"@,
                "vbr"@,
                "-cq"@,
                "20"@,
                "-b:v"@,
                "0"@,
            ] + tail
        }),
{
    let a = remote_mp4_args_of(start, end, urls, hardware, out);
    let tail = seq!["-c:a"@, "aac"@, "-pix_fmt"@, "yuv420p"@, "-movflags"@, "+faststart"@, out];
    let pre = seq!["-hide_banner"@, "-stats"@, "-v"@, "error"@] + remote_inputs(start, end, urls)
        + remote_maps(urls.len());
    if hardware {
        let mid = seq![
            "-c:v"@,
            "hevc_nvenc"@,
            "-tune"@,
            "hq"@,
            "-preset"@,
            "p7"@,
            "-rc"@,
            "vbr"@,
            "-cq"@,
            "20"@,
            "-b:v"@,
            "0"@,
        ];
        assert(a =~= pre + (mid + tail));
        assert(a.skip(a.len() - 19) =~= mid + tail);
    } else {
        let mid = seq!["-c:v"@, "libx264"@, "-crf"@, "18"@, "-preset"@, "medium"@];
        assert(a =~= pre + (mid + tail));
        assert(a.skip(a.len() - 13) =~= mid + tail);
    }
}

/// How a clip is cut follows its file type, whatever the letter case of an
/// ASCII extension: mp4, m4v, mov and mkv are re-encoded as video, webm as
/// WebM, m4a and aac as AAC audio, mp3, wav and ogg with their audio codecs,
/// and every other type is stream-copied.
pub proof fn lemma_trim_runner_by_type(extension: Seq<char>)
    requires
        all_ascii(extension),
    ensures
        ({
            let e = ascii_fold(extension);
            &&& (e == "mp4"@ || e == "m4v"@ || e == "mov"@ || e == "mkv"@) ==> trim_runner_of(e)
                == TrimRunnerView::Video
            &&& e == "webm"@ ==> trim_runner_of(e) == TrimRunnerView::Webm
            &&& (e == "m4a"@ || e == "aac"@) ==> trim_runner_of(e) == TrimRunnerView::AacAudio
            &&& e == "mp3"@ ==> trim_runner_of(e) == TrimRunnerView::Audio {
                codec: "libmp3lame"@,
                format: "mp3"@,
            }
            &&& e == "wav"@ ==> trim_runner_of(e) == TrimRunnerView::Audio {
                codec: "pcm_s16le"@,
                format: "wav"@,
            }
            &&& e == "ogg"@ ==> trim_runner_of(e) == TrimRunnerView::Audio {
                codec: "libopus"@,
                format: "ogg"@,
            }
            &&& !(e == "mp4"@ || e == "m4v"@ || e == "mov"@ || e == "mkv"@ || e == "webm"@ || e == "m4a"@
                || e == "aac"@ || e == "mp3"@ || e == "wav"@ || e == "ogg"@) ==> trim_runner_of(e)
                == TrimRunnerView::Fallback
        }),
{
    reveal_strlit("mp4");
    reveal_strlit("m4v");
    reveal_strlit("mov");
    reveal_strlit("mkv");
    reveal_strlit("webm");
    reveal_strlit("m4a");
    reveal_strlit("aac");
    reveal_strlit("mp3");
    reveal_strlit("wav");
    reveal_strlit("ogg");
    assert("mp4"@ =~= seq!['m', 'p', '4']);
    assert("m4v"@ =~= seq!['m', '4', 'v']);
    assert("mov"@ =~= seq!['m', 'o', 'v']);
    assert("mkv"@ =~= seq!['m', 'k', 'v']);
    assert("webm"@ =~= seq!['w', 'e', 'b', 'm']);
    assert("m4a"@ =~= seq!['m', '4', 'a']);
    assert("aac"@ =~= seq!['a', 'a', 'c']);
    assert("mp3"@ =~= seq!['m', 'p', '3']);
    assert("wav"@ =~= seq!['w', 'a', 'v']);
    assert("ogg"@ =~= seq!['o', 'g', 'g']);
    assert("m4v"@[1] != "mp4"@[1]);
    assert("mov"@[1] != "mp4"@[1]);
    assert("mov"@[1] != "m4v"@[1]);
    assert("mkv"@[1] != "mp4"@[1]);
    assert("mkv"@[1] != "m4v"@[1]);
    assert("mkv"@[1] != "mov"@[1]);
    assert("webm"@.len() != "mp4"@.len());
    assert("webm"@.len() != "m4v"@.len());
    assert("webm"@.len() != "mov"@.len());
    assert("webm"@.len() != "mkv"@.len());
    assert("m4a"@[1] != "mp4"@[1]);
    assert("m4a"@[2] != "m4v"@[2]);
    assert("m4a"@[1] != "mov"@[1]);
    assert("m4a"@[1] != "mkv"@[1]);
    assert("m4a"@.len() != "webm"@.len());
    assert("aac"@[0] != "mp4"@[0]);
    assert("aac"@[0] != "m4v"@[0]);
    assert("aac"@[0] != "mov"@[0]);
    assert("aac"@[0] != "mkv"@[0]);
    assert("aac"@.len() != "webm"@.len());
    assert("aac"@[0] != "m4a"@[0]);
    assert("mp3"@[2] != "mp4"@[2]);
    assert("mp3"@[1] != "m4v"@[1]);
    assert("mp3"@[1] != "mov"@[1]);
    assert("mp3"@[1] != "mkv"@[1]);
    assert("mp3"@.len() != "webm"@.len());
    assert("mp3"@[1] != "m4a"@[1]);
    assert("mp3"@[0] != "aac"@[0]);
    assert("wav"@[0] != "mp4"@[0]);
    assert("wav"@[0] != "m4v"@[0]);
    assert("wav"@[0] != "mov"@[0]);
    assert("wav"@[0] != "mkv"@[0]);
    assert("wav"@.len() != "webm"@.len());
    assert("wav"@[0] != "m4a"@[0]);
    assert("wav"@[0] != "aac"@[0]);
    assert("wav"@[0] != "mp3"@[0]);
    assert("ogg"@[0] != "mp4"@[0]);
    assert("ogg"@[0] != "m4v"@[0]);
    assert("ogg"@[0] != "mov"@[0]);
    assert("ogg"@[0] != "mkv"@[0]);
    assert("ogg"@.len() != "webm"@.len());
    assert("ogg"@[0] != "m4a"@[0]);
    assert("ogg"@[0] != "aac"@[0]);
    assert("ogg"@[0] != "mp3"@[0]);
    assert("ogg"@[0] != "wav"@[0]);
}

/// The encoders follow the hardware flag: NVIDIA's `hevc_nvenc` where hardware
/// encoding is available and `libx264` where it is not, for every tool; the
/// software options keep quality by a constant rate factor (`-crf`), and the
/// common encoder takes the preset it is given last.
pub proof fn lemma_encoder_choices(preset: Seq<char>)
    ensures
        video_codec_of(true) == "hevc_nvenc"@,
        video_codec_of(false) == "libx264"@,
        video_params_of(false, preset) == seq!["-crf"@, "18"@, "-preset"@, preset],
        video_params_of(true, preset).len() == 16 && video_params_of(true, preset).take(2) == seq![
            "-tune"@,
            "hq"@,
        ] && video_params_of(true, preset).skip(12) == seq!["-cq"@, "20"@, "-b:v"@, "0"@],
        transition_params_of(false) == seq!["-crf"@, "18"@],
        chain_params_of(false) == seq!["-preset"@, "medium"@, "-crf"@, "18"@],
        stack_params_of(false) == seq!["-crf"@, "16"@, "-preset"@, "medium"@],
        still_motion_params_of(false) == seq!["-crf"@, "18"@],
        inset_params_of(false) == seq!["-crf"@, "18"@],
        still_motion_params_of(true) == video_params_of(true, "medium"@),
{
    assert(video_params_of(true, preset).take(2) =~= seq!["-tune"@, "hq"@]);
    assert(video_params_of(true, preset).skip(12) =~= seq!["-cq"@, "20"@, "-b:v"@, "0"@]);
}

} // verus!
