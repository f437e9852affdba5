use ffmpeg_rust_scripts::media::{file_stem_or, get_media_info, media_info_from_file_name, stem_from_file_name};

#[test]
fn media_info_of_plain_file() {
    let info = get_media_info("/home/user/video.MP4");
    assert_eq!(info.stem, "video");
    assert_eq!(info.extension, "mp4");
}

#[test]
fn media_info_keeps_inner_dots_in_stem() {
    let info = get_media_info("archive.tar.gz");
    assert_eq!(info.stem, "archive.tar");
    assert_eq!(info.extension, "gz");
}

#[test]
fn media_info_of_hidden_file_has_no_extension() {
    let info = get_media_info(".bashrc");
    assert_eq!(info.stem, ".bashrc");
    assert_eq!(info.extension, "");
}

#[test]
fn media_info_of_trailing_dot() {
    let info = get_media_info("name.");
    assert_eq!(info.stem, "name");
    assert_eq!(info.extension, "");
}

#[test]
fn media_info_skips_trailing_separators_and_dots() {
    let info = get_media_info("clips/clip.MKV/./");
    assert_eq!(info.stem, "clip");
    assert_eq!(info.extension, "mkv");
}

#[test]
fn media_info_without_file_name() {
    for p in ["", "/", "a/..", ".", "./"] {
        let info = get_media_info(p);
        assert_eq!(info.stem, "output", "path {:?}", p);
        assert_eq!(info.extension, "", "path {:?}", p);
    }
}

#[test]
fn media_info_stem_and_extension_rebuild_name() {
    let info = get_media_info("dir/Holiday.Clip.mov");
    assert_eq!(format!("{}.{}", info.stem, info.extension), "Holiday.Clip.mov");
}

#[test]
fn file_stem_with_fallback() {
    assert_eq!(file_stem_or("times/scenes.txt", ""), "scenes");
    assert_eq!(file_stem_or("..", ""), "");
    assert_eq!(file_stem_or("/", "output"), "output");
}

#[test]
fn media_info_agrees_with_std_path() {
    for p in [
        "C:clip.mp4", "C:\\v\\clip.MP4", "\\\\server\\share", "\\\\?\\C:\\a/b.Mkv", "d\\e/f.Mov",
        "/home/user/video.MP4", "a/..", "name.", ".bashrc", "",
    ] {
        let path = std::path::Path::new(p);
        let stem = path.file_stem().and_then(|s| s.to_str()).unwrap_or("output").to_string();
        let ext = path.extension().and_then(|s| s.to_str()).unwrap_or("").to_lowercase();
        let info = get_media_info(p);
        assert_eq!(info.stem, stem, "path {:?}", p);
        assert_eq!(info.extension, ext, "path {:?}", p);
        assert_eq!(file_stem_or(p, "none"), path.file_stem().and_then(|s| s.to_str()).unwrap_or("none"));
    }
}

#[test]
fn media_info_of_file_names() {
    let info = media_info_from_file_name(&Some("Holiday.Clip.MOV".to_string()));
    assert_eq!(info.stem, "Holiday.Clip");
    assert_eq!(info.extension, "mov");
    let hidden = media_info_from_file_name(&Some(".bashrc".to_string()));
    assert_eq!(hidden.stem, ".bashrc");
    assert_eq!(hidden.extension, "");
    let none = media_info_from_file_name(&None);
    assert_eq!(none.stem, "output");
    assert_eq!(none.extension, "");
    assert_eq!(stem_from_file_name(&Some("scenes.txt".to_string()), "x"), "scenes");
    assert_eq!(stem_from_file_name(&None, "x"), "x");
}

#[test]
fn media_info_reads_back_its_own_name() {
    for p in ["/home/user/Video.MP4", "dir/Holiday.Clip.mov", "x.tar.GZ"] {
        let first = get_media_info(p);
        let again = get_media_info(&format!("{}.{}", first.stem, first.extension));
        assert_eq!(again.stem, first.stem, "path {:?}", p);
        assert_eq!(again.extension, first.extension, "path {:?}", p);
    }
}

#[test]
fn media_info_drops_directories() {
    let info = get_media_info("/home/user/My.Clip.MKV");
    assert_eq!(info.stem, "My.Clip");
    assert_eq!(info.extension, "mkv");
    assert_eq!(file_stem_or("dir/sub/take.2.wav", "none"), "take.2");
    assert_eq!(file_stem_or("", "none"), "none");
}
