use ffmpeg_rust_scripts::listings::{
    clip_pairs, cutlist_entry, cutlist_start, encoder_recognized, is_sexagesimal_listing, lists_hevc_nvenc,
    loudnorm_value, nonblank_lines, parse_dimensions, parse_frame_height, probed_size, pts_time_text,
    pts_time_word, remote_title_and_extension, stream_urls,
};

#[test]
fn cutlist_entry_trims_fields() {
    assert_eq!(cutlist_entry(" 00:00:05 , 00:00:10 ,x"), Some(("00:00:05".to_string(), "00:00:10".to_string())));
    assert_eq!(cutlist_entry("   "), None);
    assert_eq!(cutlist_entry("12.5"), None);
}

#[test]
fn cutlist_start_reads_first_field() {
    assert_eq!(cutlist_start(" 1.5 ,2"), "1.5");
    assert_eq!(cutlist_start(""), "");
}

#[test]
fn nonblank_lines_drop_blank_and_trim() {
    let ls: Vec<String> = vec![" a ".into(), "".into(), "  ".into(), "b".into()];
    assert_eq!(nonblank_lines(&ls), vec!["a", "b"]);
}

#[test]
fn clip_pairs_drop_odd_last() {
    let ts: Vec<String> = vec!["1".into(), "2".into(), "3".into(), "4".into(), "5".into()];
    assert_eq!(
        clip_pairs(&ts),
        vec![("1".to_string(), "2".to_string()), ("3".to_string(), "4".to_string())]
    );
}

#[test]
fn sexagesimal_listing_checks_first_line() {
    assert!(is_sexagesimal_listing("00:00:01\n5\n"));
    assert!(!is_sexagesimal_listing("1.5\n00:00:01\n"));
    assert!(!is_sexagesimal_listing(""));
}

#[test]
fn pts_time_values() {
    assert_eq!(pts_time_text("frame:3 pts:900 pts_time:12.5  "), Some("12.5".to_string()));
    assert_eq!(pts_time_text("lavfi.scene_score=0.5"), None);
    assert_eq!(
        pts_time_word("[Parsed_showinfo_1] n:0 pts:12 pts_time:0.48 duration:1"),
        Some("0.48".to_string())
    );
    assert_eq!(pts_time_word("pts_time:   "), None);
}

#[test]
fn loudnorm_values_from_json() {
    let out = "[Parsed_loudnorm_0]\n{\n\t\"input_i\" : \"-23.54\",\n\t\"input_tp\" : \"-7.96\",\n}\n";
    assert_eq!(loudnorm_value(out, "input_i"), "-23.54");
    assert_eq!(loudnorm_value(out, "input_tp"), "-7.96");
    assert_eq!(loudnorm_value(out, "target_offset"), "");
}

#[test]
fn dimensions_of_probe_output() {
    assert_eq!(parse_dimensions("1920x1080\n", (0, 0)), (1920, 1080));
    assert_eq!(parse_dimensions("1920x1080x", (0, 0)), (1920, 1080));
    assert_eq!(parse_dimensions("garbage", (1920, 1080)), (1920, 1080));
    assert_eq!(parse_frame_height(" 480\n"), 480);
    assert_eq!(parse_frame_height(""), 720);
    assert_eq!(probed_size("640xabc"), Some((640, 0)));
    assert_eq!(probed_size("640"), None);
}

#[test]
fn encoder_checks() {
    assert!(!encoder_recognized("Codec 'x' is not recognized by FFmpeg.", ""));
    assert!(!encoder_recognized("", "Codec 'nope' is not recognized by FFmpeg.\n"));
    assert!(encoder_recognized("Encoder libfdk_aac [Fraunhofer FDK AAC]:", ""));
    assert!(lists_hevc_nvenc(" V....D hevc_nvenc  NVIDIA NVENC hevc encoder"));
    assert!(!lists_hevc_nvenc(" V....D libx265"));
}

#[test]
fn remote_metadata_and_urls() {
    assert_eq!(
        remote_title_and_extension("My Video \nwebm\n"),
        ("My Video".to_string(), "webm".to_string())
    );
    assert_eq!(remote_title_and_extension(""), ("remote_video".to_string(), "mp4".to_string()));
    assert_eq!(stream_urls("\nhttp://a\nhttp://b\n\n"), vec!["http://a", "http://b"]);
}
