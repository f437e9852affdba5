use ffmpeg_rust_scripts::numfmt::{decimal_string, padded_decimal_string, parse_i32, parse_u32, signed_decimal_string};
use ffmpeg_rust_scripts::filters::{stack_audio_map, switch_on};
use ffmpeg_rust_scripts::get_media_info;
use ffmpeg_rust_scripts::text::{contains, lines, replace, same_text, split, trim};

#[test]
fn split_keeps_empty_pieces() {
    assert_eq!(split("a,,b,", ','), vec!["a", "", "b", ""]);
    assert_eq!(split("", ','), vec![""]);
}

#[test]
fn split_then_join_restores_text() {
    let s = "x,y,,z";
    assert_eq!(split(s, ',').join(","), s);
}

#[test]
fn lines_like_std() {
    for s in ["", "a", "a\n", "a\r\nb", "a\rb\n\n", "\n\nx", "a\r"] {
        let want: Vec<String> = s.lines().map(|l| l.to_string()).collect();
        assert_eq!(lines(s), want, "text {:?}", s);
    }
}

#[test]
fn trim_like_std() {
    for s in ["  a b \t", "\u{3000}x\u{a0}", "", "   ", "x"] {
        assert_eq!(trim(s), s.trim(), "text {:?}", s);
    }
}

#[test]
fn contains_substrings() {
    assert!(contains("Codec not recognized", "not recognized"));
    assert!(!contains("Encoder libx264", "not recognized"));
    assert!(contains("abc", ""));
    assert!(!contains("ab", "abc"));
}

#[test]
fn replace_characters() {
    assert_eq!(replace("a:b:c", ':', "-"), "a-b-c");
    assert_eq!(replace("C:\\v", '\\', "\\\\"), "C:\\\\v");
}

#[test]
fn lowercase_folds_letters() {
    assert_eq!(get_media_info("clip.MP4").extension, "mp4");
    assert_eq!(get_media_info("clip.ÀB").extension, "àb");
    assert!(switch_on("ON"));
    assert!(!switch_on("off"));
    assert_eq!(stack_audio_map("R"), "1:a");
}

#[test]
fn decimal_text() {
    assert_eq!(decimal_string(0), "0");
    assert_eq!(decimal_string(1234567890123), "1234567890123");
    assert_eq!(padded_decimal_string(7, 3), "007");
    assert_eq!(padded_decimal_string(1234, 3), "1234");
    assert_eq!(signed_decimal_string(-45), "-45");
    assert_eq!(signed_decimal_string(i64::MIN), i64::MIN.to_string());
}

#[test]
fn parse_u32_like_std() {
    for s in ["0", "+7", "007", "4294967295", "4294967296", "", "+", "-1", "1x", " 1"] {
        assert_eq!(parse_u32(s), s.parse::<u32>().ok(), "text {:?}", s);
    }
}

#[test]
fn parse_i32_like_std() {
    for s in ["-2147483648", "2147483647", "2147483648", "-", "-0", "+12", "--1", "20"] {
        assert_eq!(parse_i32(s), s.parse::<i32>().ok(), "text {:?}", s);
    }
}

#[test]
fn u32_text_roundtrip() {
    for n in [0u32, 9, 10, 65535, u32::MAX] {
        assert_eq!(parse_u32(&decimal_string(n as u64)), Some(n));
    }
}

#[test]
fn same_text_compares_whole_texts() {
    assert!(same_text("mp4", "mp4"));
    assert!(!same_text("mp4", "mp4 "));
    assert!(!same_text("", "a"));
}
