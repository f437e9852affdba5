use ffmpeg_rust_scripts::commands::{
    aac_encoder, clip_audio_args, clip_copy_args, clip_video_args, clip_webm_args, remote_is_webm, remote_mp4_args,
    remote_webm_args, scene_clip_args, scene_span_args, span_audio_args, span_copy_args, span_video_args,
    span_webm_args, trim_runner, video_encoder, transition_encoder, chain_encoder, stack_encoder, still_motion_encoder,
    inset_encoder, TrimRunner,
};

#[test]
fn runner_by_extension() {
    assert!(matches!(trim_runner("MP4"), TrimRunner::Video));
    assert!(matches!(trim_runner("mkv"), TrimRunner::Video));
    assert!(matches!(trim_runner("webm"), TrimRunner::Webm));
    assert!(matches!(trim_runner("aac"), TrimRunner::AacAudio));
    match trim_runner("wav") {
        TrimRunner::Audio { codec, format } => assert_eq!((codec.as_str(), format.as_str()), ("pcm_s16le", "wav")),
        _ => panic!("wav is audio"),
    }
    assert!(matches!(trim_runner("flv"), TrimRunner::Fallback));
}

#[test]
fn aac_encoder_choice() {
    assert_eq!(aac_encoder(true), "libfdk_aac");
    assert_eq!(aac_encoder(false), "aac");
}

#[test]
fn encoder_choice() {
    let sw = video_encoder(false, "slow");
    assert_eq!(sw.codec, "libx264");
    assert_eq!(sw.params, vec!["-crf", "18", "-preset", "slow"]);
    let hw = video_encoder(true, "medium");
    assert_eq!(hw.codec, "hevc_nvenc");
    assert_eq!(hw.params.len(), 16);
}

#[test]
fn transition_encoder_choice() {
    let sw = transition_encoder(false);
    assert_eq!(sw.codec, "libx264");
    assert_eq!(sw.params, vec!["-crf", "18"]);
    let hw = transition_encoder(true);
    assert_eq!(hw.codec, "hevc_nvenc");
    assert_eq!(
        hw.params,
        vec!["-tune", "hq", "-preset", "p7", "-rc", "vbr", "-multipass", "fullres", "-cq", "20", "-b:v", "0"]
    );
}

#[test]
fn chain_encoder_choice() {
    let sw = chain_encoder(false);
    assert_eq!(sw.codec, "libx264");
    assert_eq!(sw.params, vec!["-preset", "medium", "-crf", "18"]);
    let hw = chain_encoder(true);
    assert_eq!(hw.codec, "hevc_nvenc");
    assert_eq!(hw.params, vec!["-preset", "p7", "-cq", "20"]);
}

#[test]
fn stack_encoder_choice() {
    let sw = stack_encoder(false);
    assert_eq!(sw.codec, "libx264");
    assert_eq!(sw.params, vec!["-crf", "16", "-preset", "medium"]);
    let hw = stack_encoder(true);
    assert_eq!(hw.codec, "hevc_nvenc");
    assert_eq!(hw.params, vec!["-cq", "20", "-preset", "p4"]);
}

#[test]
fn still_motion_encoder_choice() {
    let sw = still_motion_encoder(false);
    assert_eq!(sw.codec, "libx264");
    assert_eq!(sw.params, vec!["-crf", "18"]);
    let hw = still_motion_encoder(true);
    assert_eq!(hw.codec, "hevc_nvenc");
    assert_eq!(hw.params, video_encoder(true, "medium").params);
}

#[test]
fn inset_encoder_choice() {
    let sw = inset_encoder(false);
    assert_eq!(sw.codec, "libx264");
    assert_eq!(sw.params, vec!["-crf", "18"]);
    let hw = inset_encoder(true);
    assert_eq!(hw.codec, "hevc_nvenc");
    assert_eq!(
        hw.params,
        vec![
            "-tune", "hq", "-preset", "p7", "-rc", "vbr", "-multipass", "fullres", "-cq", "20", "-b:v", "0",
            "-rc-lookahead", "32", "-spatial-aq", "1"
        ]
    );
}

#[test]
fn clip_video_arguments() {
    let v = clip_video_args("00:00:30", "in.mp4", "00:00:10", "aac", "mp4", "./out.mp4");
    assert_eq!(
        v,
        vec![
            "-hide_banner", "-stats", "-v", "error", "-ss", "00:00:30", "-i", "in.mp4", "-t", "00:00:10", "-c:a",
            "aac", "-c:v", "libx264", "-profile:v", "high", "-pix_fmt", "yuv420p", "-movflags", "+faststart", "-f",
            "mp4", "./out.mp4"
        ]
    );
    let m = clip_video_args("1", "in.mkv", "2", "aac", "mkv", "o.mkv");
    assert!(!m.contains(&"-f".to_string()));
}

#[test]
fn clip_other_arguments() {
    assert_eq!(clip_webm_args("1", "i", "2", "o").last().unwrap(), "o");
    assert_eq!(
        clip_audio_args("1", "i", "2", "libmp3lame", "mp3", "o")[10..],
        ["-c:a", "libmp3lame", "-f", "mp3", "o"]
    );
    assert_eq!(clip_copy_args("1", "i", "2", "o")[10..], ["-c", "copy", "o"]);
}

#[test]
fn span_arguments() {
    let v = span_video_args("in.mov", "1", "2", false, "aac", "mov", "o.mov");
    assert_eq!(v[4..10], ["-i", "in.mov", "-ss", "1", "-to", "2"]);
    assert_eq!(v[10..16], ["-c:v", "libx264", "-crf", "18", "-preset", "medium"]);
    assert_eq!(v[v.len() - 4..], ["-y", "-f", "mov", "o.mov"]);
    assert_eq!(span_webm_args("i", "1", "2", "o")[10..], ["-c:v", "libvpx-vp9", "-c:a", "libopus", "-f", "webm", "-y", "o"]);
    assert_eq!(span_audio_args("i", "1", "2", "libopus", "ogg", "o")[10..], ["-c:a", "libopus", "-f", "ogg", "-y", "o"]);
    assert_eq!(span_copy_args("i", "1", "2", "o")[10..], ["-c", "copy", "-y", "o"]);
}

#[test]
fn scene_arguments() {
    let v = scene_clip_args("00:00:01", "2.5", "in.mp4", false, false, "s.mp4");
    assert_eq!(v[..10], ["-hide_banner", "-v", "error", "-stats", "-ss", "00:00:01", "-t", "2.5", "-i", "in.mp4"]);
    assert_eq!(v.last().unwrap(), "s.mp4");
    assert!(!v.contains(&"-y".to_string()));
    let w = scene_clip_args("0", "1", "in.mp4", true, true, "s.mp4");
    assert_eq!(w[w.len() - 2], "-y");
    let s = scene_span_args("in.mp4", "0", "1", false, "s.mp4");
    assert_eq!(s[4..10], ["-i", "in.mp4", "-ss", "0", "-to", "1"]);
}

#[test]
fn remote_arguments() {
    let urls: Vec<String> = vec!["http://v".into(), "http://a".into()];
    let v = remote_mp4_args("1", "2", &urls, false, "o.mp4");
    assert_eq!(v[4..16], ["-ss", "1", "-to", "2", "-i", "http://v", "-ss", "1", "-to", "2", "-i", "http://a"]);
    assert_eq!(v[16..20], ["-map", "0:v:0", "-map", "1:a:0"]);
    let one: Vec<String> = vec!["http://av".into()];
    let w = remote_webm_args("1", "2", &one, "o.webm");
    assert_eq!(w[10..], ["-c:v", "libvpx-vp9", "-c:a", "libopus", "o.webm"]);
    assert!(remote_is_webm("webm"));
    assert!(!remote_is_webm("mp4"));
}
