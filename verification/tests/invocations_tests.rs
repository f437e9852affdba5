use ffmpeg_rust_scripts::invocations::{
    audio_silence_args, chapter_probe_args, encoder_list_args, extract_frame_args, fade_clip_args, scene_image_args,
    trim_short_args, xfade_clips_args,
};

#[test]
fn extract_frame_scale_only_when_given() {
    assert_eq!(
        extract_frame_args("00:00:15", "in.mp4", "scale=1280:-2", "./f.jpg"),
        vec![
            "-hide_banner", "-v", "error", "-stats", "-ss", "00:00:15", "-i", "in.mp4", "-vf", "scale=1280:-2", "-frames:v",
            "1", "-q:v", "2", "-update", "1", "./f.jpg"
        ]
    );
    assert_eq!(
        extract_frame_args("1", "in.mp4", "", "f.jpg"),
        vec!["-hide_banner", "-v", "error", "-stats", "-ss", "1", "-i", "in.mp4", "-frames:v", "1", "-q:v", "2", "-update", "1", "f.jpg"]
    );
}

#[test]
fn scene_image_filter_only_when_given() {
    assert_eq!(
        scene_image_args("5", "in.mp4", &Some("scale=320:-1".to_string()), "o.png"),
        vec!["-hide_banner", "-loglevel", "error", "-ss", "5", "-i", "in.mp4", "-vframes", "1", "-q:v", "2", "-vf", "scale=320:-1", "o.png"]
    );
    assert_eq!(
        scene_image_args("5", "in.mp4", &None, "o.png"),
        vec!["-hide_banner", "-loglevel", "error", "-ss", "5", "-i", "in.mp4", "-vframes", "1", "-q:v", "2", "o.png"]
    );
}

#[test]
fn chain_of_clips_lists_every_input() {
    let inputs: Vec<String> = vec!["a.mp4".into(), "b.mp4".into(), "c.mp4".into()];
    let params: Vec<String> = vec!["-crf".into(), "18".into()];
    assert_eq!(
        xfade_clips_args(&inputs, "F", "[v2]", "[a2]", "libx264", &params, "out.mp4"),
        vec![
            "-hide_banner", "-v", "error", "-stats", "-i", "a.mp4", "-i", "b.mp4", "-i", "c.mp4", "-filter_complex", "F",
            "-map", "[v2]", "-map", "[a2]", "-c:v", "libx264", "-crf", "18", "-c:a", "aac", "-pix_fmt", "yuv420p",
            "-movflags", "+faststart", "out.mp4"
        ]
    );
}

#[test]
fn encoder_options_spliced_in_place() {
    let params: Vec<String> = vec!["-preset".into(), "medium".into()];
    assert_eq!(
        fade_clip_args("in.mp4", "fade=t=in:st=0:d=2", "afade=t=in:st=0:d=2", "libx264", &params, "o.mp4"),
        vec![
            "-hide_banner", "-v", "error", "-stats", "-i", "in.mp4", "-vf", "fade=t=in:st=0:d=2", "-af",
            "afade=t=in:st=0:d=2", "-c:v", "libx264", "-preset", "medium", "-c:a", "aac", "-pix_fmt", "yuv420p",
            "-movflags", "+faststart", "o.mp4"
        ]
    );
}

#[test]
fn fixed_runs() {
    assert_eq!(encoder_list_args(), vec!["-hide_banner", "-encoders"]);
    assert_eq!(chapter_probe_args("a.mkv"), vec!["-v", "error", "-show_chapters", "-print_format", "csv", "a.mkv"]);
    assert_eq!(
        audio_silence_args("in.mp4", "anullsrc=channel_layout=stereo:sample_rate=48000", "o.mp4"),
        vec![
            "-loglevel", "error", "-i", "in.mp4", "-f", "lavfi", "-i", "anullsrc=channel_layout=stereo:sample_rate=48000",
            "-c:v", "copy", "-c:a", "aac", "-map", "0:v:0", "-map", "1:a:0", "-shortest", "-y", "o.mp4"
        ]
    );
    assert_eq!(
        trim_short_args("in.mp4", "00:01:00", "00:02:00.000", "crop", "s.mp4"),
        vec![
            "-hide_banner", "-v", "error", "-stats", "-i", "in.mp4", "-ss", "00:01:00", "-to", "00:02:00.000", "-vf", "crop",
            "-c:v", "libx264", "-profile:v", "high", "-pix_fmt", "yuv420p", "-c:a", "aac", "-movflags", "+faststart", "-y",
            "s.mp4"
        ]
    );
}
