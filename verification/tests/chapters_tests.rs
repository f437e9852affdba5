use ffmpeg_rust_scripts::chapters::{chapter_csv, chapter_csv_row, ffmetadata, probed_chapter, ChapterMark, ProbedChapter};

#[test]
fn csv_row_splits_time_and_title() {
    assert_eq!(
        chapter_csv_row("00:01:00, Intro, part one "),
        Some(("00:01:00".to_string(), "Intro, part one".to_string()))
    );
    assert_eq!(chapter_csv_row("no comma here"), None);
}

fn mark(ms: i64, title: &str) -> ChapterMark {
    ChapterMark { start_ms: ms, title: title.to_string() }
}

#[test]
fn metadata_closes_chapters_before_next() {
    let marks = vec![mark(0, "Intro"), mark(60000, "Main"), mark(90500, "End")];
    let text = ffmetadata(&marks).unwrap();
    assert_eq!(
        text,
        ";FFMETADATA1\n[CHAPTER]\nTIMEBASE=1/1000\nSTART=0\nEND=59999\ntitle=Intro\n\
         [CHAPTER]\nTIMEBASE=1/1000\nSTART=60000\nEND=90500\ntitle=Main\n"
    );
}

#[test]
fn metadata_needs_two_marks() {
    assert_eq!(ffmetadata(&vec![]), None);
    assert_eq!(ffmetadata(&vec![mark(0, "Only")]), None);
}

#[test]
fn metadata_of_negative_start() {
    let marks = vec![mark(-5, "Pre"), mark(10, "End")];
    assert_eq!(
        ffmetadata(&marks).unwrap(),
        ";FFMETADATA1\n[CHAPTER]\nTIMEBASE=1/1000\nSTART=-5\nEND=10\ntitle=Pre\n"
    );
}

#[test]
fn probed_chapter_fields() {
    let c = probed_chapter("chapter,0,1/1000,0,0.000000,60000,60.000000,\"Intro, part \"\"1\"\"\"").unwrap();
    assert_eq!(c.start, "0.000000");
    assert_eq!(c.end, "60.000000");
    assert_eq!(c.title, "Intro, part 1");
    assert!(probed_chapter("chapter,0,1/1000").is_none());
}

fn probed(start: &str, end: &str, title: &str) -> ProbedChapter {
    ProbedChapter { start: start.to_string(), end: end.to_string(), title: title.to_string() }
}

#[test]
fn chapter_csv_closes_with_end_line() {
    let rows = vec![probed("00:00:00", "00:01:00", "Intro"), probed("00:01:00", "00:02:30", "Main")];
    assert_eq!(chapter_csv(&rows), "00:00:00,Intro\n00:01:00,Main\n00:02:30,End\n");
    assert_eq!(chapter_csv(&vec![]), "");
}

#[test]
fn chapter_csv_reads_back() {
    let rows = vec![probed("00:00:00", "00:00:10", "A"), probed("00:00:10", "00:00:20", " B, part 2 ")];
    let text = chapter_csv(&rows);
    let read: Vec<(String, String)> = text.lines().filter_map(|l| chapter_csv_row(l)).collect();
    assert_eq!(read.len(), 3);
    assert_eq!(read[0], ("00:00:00".to_string(), "A".to_string()));
    assert_eq!(read[1], ("00:00:10".to_string(), "B, part 2".to_string()));
    assert_eq!(read[2], ("00:00:20".to_string(), "End".to_string()));
}
