use ffmpeg_rust_scripts::filters::{
    audio_stream_codec, blur_fill_filter, chain_labels, concat_list, delogo_fits, delogo_filter, ebu_escape,
    frame_scale, gap_value, number_or, pan_direction, pip_offset, pip_x, pip_y, scene_image_scale, scope_choice,
    scope_filter, short_crop_offset, silence_layout, stack_audio_map, stack_height, subtitle_codec, switch_on,
    tile_width, webp_filter, zoom_expression, zoom_position, Scope, fade_in_filters, language_tag, overlay_delay_filter,
    pan_filter, pip_filter, scene_window_filter, tile_sampling, xfade_pair_filter, xfade_step,
};
use ffmpeg_rust_scripts::names::{
    bracketed_name, pip_name, safe_title, scene_clip_name, scene_image_name, short_suffix, span_name, suffixed_name,
    PipOptions, tile_label,
};

#[test]
fn output_names() {
    assert_eq!(suffixed_name("clip", "-chapters", "mp4"), "clip-chapters.mp4");
    assert_eq!(bracketed_name("./", "clip", "-combined-", "00:01:00", "mp4"), "./clip-combined-[00:01:00].mp4");
    assert_eq!(span_name("clip", "00:00:01", "–", "00:00:02", "mkv"), "clip-[00:00:01–00:00:02].mkv");
    assert_eq!(scene_clip_name("v", 7, "a", "-", "b"), "v-scene-007-[a-b].mp4");
    assert_eq!(scene_image_name("v", 1234, "-x320", "t", "jpg"), "v-scene-1234-x320-[t].jpg");
}

#[test]
fn short_suffix_mentions_position_when_given() {
    assert_eq!(short_suffix("50", false, "s", "e"), "-short-[s–e]");
    assert_eq!(short_suffix("50", true, "s", "e"), "-x-50-short-[s–e]");
    assert_eq!(short_suffix("25", false, "s", "e"), "-x-25-short-[s–e]");
}

#[test]
fn remote_title_is_made_safe() {
    assert_eq!(safe_title("AC/DC: Live"), "AC_DC_ Live");
}

#[test]
fn pip_name_lists_given_options() {
    let none = PipOptions { margin: None, position: None, width: None, fade: None, border: None, color: None };
    assert_eq!(pip_name("bg", "fg", "00:00:05.000", &none), "./bg-pip-fg-p-[00:00:05.000].mp4");
    let some = PipOptions {
        margin: Some("30".into()),
        position: Some("br".into()),
        width: None,
        fade: Some("0.5".into()),
        border: Some("4".into()),
        color: Some("white".into()),
    };
    assert_eq!(pip_name("bg", "fg", "t", &some), "./bg-pip-fg-p-[t]-m-30-x-br-f-[0.5]-k-4-c-white.mp4");
}

#[test]
fn scope_selection() {
    assert!(matches!(scope_choice(false, false, true, true, false, false), Scope::RgbParade));
    assert!(matches!(scope_choice(false, false, false, false, false, false), Scope::Histogram));
    assert!(scope_filter(Scope::Waveform).contains("format=gray,waveform=d=0:g=1[w]"));
}

#[test]
fn zoom_choices() {
    assert_eq!(zoom_expression("in"), "min(zoom+0.0015,1.5)");
    assert_eq!(zoom_expression("out"), "if(lte(zoom,1.0),1.5,max(1.001,zoom-0.0015))");
    assert_eq!(zoom_position("br"), ("iw-iw/zoom".to_string(), "ih-ih/zoom".to_string()));
    assert_eq!(zoom_position("??"), ("iw/2-(iw/zoom/2)".to_string(), "ih/2-(ih/zoom/2)".to_string()));
}

#[test]
fn small_choices() {
    assert_eq!(pan_direction("u"), "up");
    assert_eq!(pan_direction("diag"), "diag");
    assert_eq!(short_crop_offset("75"), "(in_w-9/16*in_h)*0.75");
    assert_eq!(short_crop_offset("33"), "(in_w-9/16*in_h)*0.5");
    assert_eq!(subtitle_codec("m4v"), "mov_text");
    assert_eq!(subtitle_codec("mkv"), "srt");
    assert_eq!(silence_layout("stereo"), "stereo");
    assert_eq!(silence_layout("5.1"), "mono");
    assert_eq!(audio_stream_codec("aac"), "copy");
    assert_eq!(audio_stream_codec("opus"), "aac");
    assert_eq!(tile_width("on"), "iw");
    assert_eq!(tile_width("160"), "160");
    assert!(switch_on("ON"));
    assert!(!switch_on("off"));
}

#[test]
fn stacking() {
    assert_eq!(stack_height(720, 1080), 1080);
    assert_eq!(stack_height(2160, 480), 1080);
    assert_eq!(stack_audio_map("R"), "1:a");
    assert_eq!(stack_audio_map("l"), "0:a");
}

#[test]
fn pip_coordinates() {
    assert_eq!(number_or("30", 20), 30);
    assert_eq!(number_or("x", 20), 20);
    assert_eq!(pip_offset(4), 2);
    assert_eq!(pip_offset(-5), -2);
    assert_eq!(pip_x("tl", 20, 2), "20-2");
    assert_eq!(pip_x("tr", 20, 2), "main_w-overlay_w-20+2");
    assert_eq!(pip_y("bl", -3, 0), "main_h-overlay_h--3+0");
}

#[test]
fn scale_choices() {
    assert_eq!(frame_scale(Some(1280), None), "scale=1280:-2");
    assert_eq!(frame_scale(None, None), "");
    assert_eq!(scene_image_scale(Some(320), Some(-1)), (Some("scale=320:-1".to_string()), "-x320-y-1".to_string()));
    assert_eq!(scene_image_scale(None, Some(240)), (Some("scale=-1:240".to_string()), "-y240".to_string()));
}

#[test]
fn logo_box_and_filters() {
    assert!(delogo_fits(10, 10, 100, 50, 1920, 1080));
    assert!(!delogo_fits(1800, 10, 120, 50, 1920, 1080));
    assert_eq!(delogo_filter(1, 2, 3, 4, 0), "delogo=x=1:y=2:w=3:h=4:show=0");
    assert_eq!(webp_filter(15, -480), "fps=15,scale=-480:-1:flags=lanczos");
    assert!(blur_fill_filter(10).contains("boxblur=10:10[blurred]; [main]"));
}

#[test]
fn escape_for_amovie() {
    assert_eq!(ebu_escape("./C:\\a.mp4"), "./C\\:\\\\a.mp4");
}

#[test]
fn transition_chain() {
    let ds: Vec<String> = vec!["0.5".into(), "1".into()];
    assert_eq!(gap_value(&ds, 1), "0.5");
    assert_eq!(gap_value(&ds, 3), "1");
    assert_eq!(
        chain_labels(1),
        ("[0:v]".to_string(), "[0:a]".to_string(), "[v1]".to_string(), "[a1]".to_string())
    );
    assert_eq!(
        chain_labels(12),
        ("[v11]".to_string(), "[a11]".to_string(), "[v12]".to_string(), "[a12]".to_string())
    );
}

#[test]
fn transitions_link_up() {
    for gap in 1..6u64 {
        let (_, _, v_out, a_out) = chain_labels(gap);
        let (v_in, a_in, _, _) = chain_labels(gap + 1);
        assert_eq!(v_in, v_out);
        assert_eq!(a_in, a_out);
    }
}

#[test]
fn one_value_for_all_transitions() {
    let one: Vec<String> = vec!["fade".into()];
    for gap in 1..5usize {
        assert_eq!(gap_value(&one, gap), "fade");
    }
    let each: Vec<String> = vec!["fade".into(), "wipeleft".into(), "dissolve".into()];
    assert_eq!(gap_value(&each, 2), "wipeleft");
    assert_eq!(gap_value(&each, 3), "dissolve");
}

#[test]
fn concat_list_file() {
    let ins: Vec<String> = vec!["a.mp4".into(), "b c.mp4".into()];
    assert_eq!(concat_list(&ins), "file 'a.mp4'\nfile 'b c.mp4'\n");
}

#[test]
fn pan_filters_by_position() {
    assert_eq!(
        pan_filter("l", 1920, 1080, "5").unwrap(),
        "scale=w=-2:h=3*1080,crop=w=3*1920/1.05:h=3*1080/1.05:x=t*(in_w-out_w)/5:y=(in_h-out_h)/2,scale=w=1920:h=1080,setsar=1"
    );
    assert_eq!(
        pan_filter("r", 640, 480, "2.5").unwrap(),
        "scale=w=-2:h=3*480,crop=w=3*640/1.05:h=3*480/1.05:x=(in_w-out_w)-t*(in_w-out_w)/2.5:y=(in_h-out_h)/2,scale=w=640:h=480,setsar=1"
    );
    assert_eq!(
        pan_filter("u", 640, 480, "3").unwrap(),
        "scale=w=-2:h=3*480,crop=w=3*640/1.2:h=3*480/1.2:x=(in_w-out_w)/2:y=t*(in_h-out_h)/3,scale=w=640:h=480,setsar=1"
    );
    assert_eq!(
        pan_filter("d", 640, 480, "3").unwrap(),
        "scale=w=-2:h=3*480,crop=w=3*640/1.2:h=3*480/1.2:x=(in_w-out_w)/2:y=(in_h-out_h)-t*(in_h-out_h)/3,scale=w=640:h=480,setsar=1"
    );
    assert!(pan_filter("x", 640, 480, "3").is_none());
    assert!(pan_filter("L", 640, 480, "3").is_none());
}

#[test]
fn timed_filter_templates() {
    let (v, a) = fade_in_filters("1.5");
    assert_eq!(v, "fade=t=in:st=0:d=1.5");
    assert_eq!(a, "afade=t=in:st=0:d=1.5");
    assert_eq!(
        xfade_pair_filter("fade", "1", "9"),
        "[0:v][1:v]xfade=transition=fade:duration=1:offset=9[v]; [0:a][1:a]acrossfade=d=1[a]"
    );
    assert_eq!(
        xfade_step("[v1]", "[a1]", 2, "wipeleft", "0.500", "12.340", "[v2]", "[a2]"),
        "[v1][2:v]xfade=transition='wipeleft':duration=0.500:offset=12.340[v2];[a1][2:a]acrossfade=d=0.500[a2];"
    );
    assert_eq!(overlay_delay_filter("3"), "[1:v]setpts=PTS+3/TB[fg]; [0:v][fg]overlay=eof_action=pass");
    assert_eq!(
        pip_filter("iw/4", 4, -2, "#2f2f2f", "0.2", "5", "main_w-overlay_w-20+-2", "20--2"),
        "[1:v]scale=iw/4:-1,pad=w=4+iw:h=4+ih:x=-2:y=-2:color=#2f2f2f[pip_b]; [pip_b]fade=t=in:st=0:d=0.2,fade=t=out:st=999:d=0.2[pip_f]; [pip_f]setpts=PTS+5/TB[fg]; [0:v][fg]overlay=main_w-overlay_w-20+-2:20--2:eof_action=pass"
    );
    assert_eq!(
        scene_window_filter("1", "9.5", "0.3"),
        "[0:v]select='between(t,1,9.5)'[t1]; [t1]select='gt(scene,0.3)',metadata=print:file=-"
    );
    assert_eq!(tile_sampling("0.2", "on"), "fps=0.2,scale=iw:-2");
    assert_eq!(tile_sampling("0.2", "320"), "fps=0.2,scale=320:-2");
    assert_eq!(language_tag("eng"), "language=eng");
    assert_eq!(tile_label("2024-01-02-03-04-05"), "-tile-2024-01-02-03-04-05");
}
