//! Chapter lists: the `Time,Title` CSV that chapter tools exchange, the rows
//! of `ffprobe -show_chapters -print_format csv`, and FFmpeg's `FFMETADATA1`
//! text.
use vstd::prelude::*;
use crate::numfmt::{signed_decimal, signed_decimal_string};
use crate::text::{
    free_of,
    lemma_lines_of_terminated,
    lemma_split_char_nonempty,
    lemma_split_concat,
    lemma_split_join,
    lines_of,
    replace,
    replace_char,
    split,
    split_char,
    strip_cr,
    terminated,
    trim,
    trim_end,
    trim_seq,
    trim_start,
};
use crate::timecode::lemma_split_prefix_free;

verus! {

/// `parts[from..]` joined with `sep` between neighbours.
pub open spec fn join_from(parts: Seq<Seq<char>>, from: int, sep: char) -> Seq<char> {
    crate::text::join_with(parts.skip(from), sep)
}

/// Joins `parts[from..]` with `sep`, as `parts[from..].join(",")` does.
pub fn join_from_exec(parts: &Vec<String>, from: usize, sep: char) -> (r: String)
    requires
        from <= parts@.len(),
    ensures
        r@ == join_from(parts.deep_view(), from as int, sep),
{
    let ghost pd = parts.deep_view();
    let n = parts.len();
    let mut r = String::new();
    let mut i: usize = from;
    assert(pd.subrange(from as int, from as int) =~= Seq::<Seq<char>>::empty());
    while i < n
        invariant
            from <= i <= n,
            n == pd.len(),
            pd == parts.deep_view(),
            r@ == crate::text::join_with(pd.subrange(from as int, i as int), sep),
        decreases n - i,
    {
        let ghost q = pd.subrange(from as int, i as int);
        assert(pd.subrange(from as int, i + 1).drop_last() =~= q);
        assert(parts[i as int]@ == pd[i as int]);
        if i > from {
            crate::text::push_char(&mut r, sep);
        }
        r.append(parts[i].as_str());
        i = i + 1;
    }
    assert(pd.subrange(from as int, n as int) =~= pd.skip(from as int));
    r
}

/// The `(time, title)` of a line of a chapter CSV: the text before the first
/// comma and the trimmed rest; lines without a comma carry no chapter.
pub open spec fn chapter_csv_row_of(line: Seq<char>) -> Option<(Seq<char>, Seq<char>)> {
    let p = split_char(line, ',');
    if p.len() >= 2 {
        Some((p[0], trim_seq(join_from(p, 1, ','))))
    } else {
        None
    }
}

/// Reads one line of a chapter CSV (`Time,Title`).
pub fn chapter_csv_row(line: &str) -> (r: Option<(String, String)>)
    ensures
        r.deep_view() == chapter_csv_row_of(line@),
{
    let parts = split(line, ',');
    if parts.len() >= 2 {
        let rest = join_from_exec(&parts, 1, ',');
        let title = trim(rest.as_str());
        let time = String::from_str(parts[0].as_str());
        assert(parts[0]@ == split_char(line@, ',')[0]);
        Some((time, title))
    } else {
        None
    }
}

/// A chapter of an FFmpeg metadata file: its start in milliseconds and title.
pub struct ChapterMark {
    pub start_ms: i64,
    pub title: String,
}

/// The text of `[CHAPTER]` block.
pub open spec fn chapter_block(start: int, end: int, title: Seq<char>) -> Seq<char> {
    "[CHAPTER]\n"@ + "TIMEBASE=1/1000\n"@ + "START="@ + signed_decimal(start) + "\n"@ + "END="@
        + signed_decimal(end) + "\n"@ + "title="@ + title + "\n"@
}

/// Where chapter `i` of `marks` ends: one millisecond before the next mark,
/// except the last chapter, which ends at the final (`End`) mark itself.
pub open spec fn chapter_end(marks: Seq<ChapterMark>, i: int) -> int {
    if i == marks.len() - 2 {
        marks[i + 1].start_ms as int
    } else {
        marks[i + 1].start_ms - 1
    }
}

/// The blocks of the first `k` chapters.
pub open spec fn chapter_blocks(marks: Seq<ChapterMark>, k: int) -> Seq<char>
    decreases k,
{
    if k <= 0 {
        Seq::<char>::empty()
    } else {
        chapter_blocks(marks, k - 1) + chapter_block(
            marks[k - 1].start_ms as int,
            chapter_end(marks, k - 1),
            marks[k - 1].title@,
        )
    }
}

/// The metadata text for `marks`: a header and one block per chapter; the
/// last mark only closes the last chapter.
pub open spec fn ffmetadata_of(marks: Seq<ChapterMark>) -> Seq<char> {
    ";FFMETADATA1\n"@ + chapter_blocks(marks, marks.len() - 1)
}

/// No mark that closes a chapter early sits at the least `i64`, so that one
/// millisecond before it exists.
pub open spec fn marks_in_range(marks: Seq<ChapterMark>) -> bool {
    forall|j: int| 1 <= j < marks.len() - 1 ==> marks[j].start_ms > i64::MIN
}

/// Builds an FFmpeg metadata file from chapter marks, the last of which is the
/// `End` mark. There is none for fewer than two marks.
pub fn ffmetadata(marks: &Vec<ChapterMark>) -> (r: Option<String>)
    requires
        marks_in_range(marks@),
    ensures
        r is None <==> marks@.len() < 2,
        r matches Some(text) ==> text@ == ffmetadata_of(marks@),
{
    let n = marks.len();
    if n < 2 {
        return None;
    }
    let mut text = String::from_str(";FFMETADATA1\n");
    let mut i: usize = 0;
    while i < n - 1
        invariant
            n == marks@.len(),
            n >= 2,
            i <= n - 1,
            marks_in_range(marks@),
            text@ == ";FFMETADATA1\n"@ + chapter_blocks(marks@, i as int),
        decreases n - 1 - i,
    {
        let start = marks[i].start_ms;
        let next = marks[i + 1].start_ms;
        let end = if i == n - 2 {
            next
        } else {
            next - 1
        };
        let ghost before = text@;
        text.append("[CHAPTER]\n");
        text.append("TIMEBASE=1/1000\n");
        text.append("START=");
        let s = signed_decimal_string(start);
        text.append(s.as_str());
        text.append("\n");
        text.append("END=");
        let e = signed_decimal_string(end);
        text.append(e.as_str());
        text.append("\n");
        text.append("title=");
        text.append(marks[i].title.as_str());
        text.append("\n");
        assert(end as int == chapter_end(marks@, i as int));
        assert(text@ =~= before + chapter_block(start as int, end as int, marks@[i as int].title@));
        i = i + 1;
    }
    Some(text)
}

/// A chapter as `ffprobe -show_chapters -print_format csv` prints it: the
/// start and end time fields and the title.
pub struct ProbedChapter {
    pub start: String,
    pub end: String,
    pub title: String,
}

/// The chapter fields of an ffprobe CSV line: fields 4 and 6 are the start and
/// end times, fields 7 onward (joined by commas, quotes removed) the title;
/// lines with fewer than eight fields carry no chapter.
pub open spec fn probed_chapter_of(line: Seq<char>) -> Option<(Seq<char>, Seq<char>, Seq<char>)> {
    let p = split_char(line, ',');
    if p.len() >= 8 {
        Some((p[4], p[6], replace_char(join_from(p, 7, ','), '"', Seq::<char>::empty())))
    } else {
        None
    }
}

/// Reads one line of ffprobe's chapter CSV.
pub fn probed_chapter(line: &str) -> (r: Option<ProbedChapter>)
    ensures
        match r {
            Some(c) => probed_chapter_of(line@) == Some((c.start@, c.end@, c.title@)),
            None => probed_chapter_of(line@) is None,
        },
{
    let parts = split(line, ',');
    if parts.len() >= 8 {
        let joined = join_from_exec(&parts, 7, ',');
        let title = replace(joined.as_str(), '"', "");
        proof {
            reveal_strlit("");
        }
        assert(""@ =~= Seq::<char>::empty());
        let start = String::from_str(parts[4].as_str());
        let end = String::from_str(parts[6].as_str());
        Some(ProbedChapter { start, end, title })
    } else {
        None
    }
}

/// A chapter line of the `Time,Title` CSV.
pub open spec fn chapter_line(time: Seq<char>, title: Seq<char>) -> Seq<char> {
    time + ","@ + title + "\n"@
}

/// The lines of the first `k` chapters.
pub open spec fn chapter_lines(rows: Seq<ProbedChapter>, k: int) -> Seq<char>
    decreases k,
{
    if k <= 0 {
        Seq::<char>::empty()
    } else {
        chapter_lines(rows, k - 1) + chapter_line(rows[k - 1].start@, rows[k - 1].title@)
    }
}

/// The `Time,Title` CSV of a chapter list: one line per chapter, closed by an
/// `End` line at the end time of the last chapter; empty for no chapters.
pub open spec fn chapter_csv_of(rows: Seq<ProbedChapter>) -> Seq<char> {
    if rows.len() == 0 {
        Seq::<char>::empty()
    } else {
        chapter_lines(rows, rows.len() as int) + chapter_line(rows.last().end@, "End"@)
    }
}

/// Writes the `Time,Title` CSV of a chapter list (times as given).
pub fn chapter_csv(rows: &Vec<ProbedChapter>) -> (r: String)
    ensures
        r@ == chapter_csv_of(rows@),
{
    let n = rows.len();
    let mut text = String::new();
    let mut i: usize = 0;
    while i < n
        invariant
            n == rows@.len(),
            i <= n,
            text@ == chapter_lines(rows@, i as int),
        decreases n - i,
    {
        let ghost before = text@;
        text.append(rows[i].start.as_str());
        text.append(",");
        text.append(rows[i].title.as_str());
        text.append("\n");
        assert(text@ =~= before + chapter_line(rows@[i as int].start@, rows@[i as int].title@));
        i = i + 1;
    }
    if n > 0 {
        let ghost before = text@;
        text.append(rows[n - 1].end.as_str());
        text.append(",");
        text.append("End");
        text.append("\n");
        assert(text@ =~= before + chapter_line(rows@.last().end@, "End"@));
    }
    text
}

/// The line of the `Time,Title` CSV for a chapter, without its line ending.
pub open spec fn csv_row_text(time: Seq<char>, title: Seq<char>) -> Seq<char> {
    time + ","@ + title
}

/// The lines, without line endings, of `chapter_csv_of(rows)`.
pub open spec fn chapter_csv_rows(rows: Seq<ProbedChapter>) -> Seq<Seq<char>> {
    if rows.len() == 0 {
        Seq::<Seq<char>>::empty()
    } else {
        Seq::new(rows.len(), |i: int| csv_row_text(rows[i].start@, rows[i].title@)).push(
            csv_row_text(rows.last().end@, "End"@),
        )
    }
}

proof fn lemma_chapter_lines_terminated(rows: Seq<ProbedChapter>, k: int)
    requires
        0 <= k <= rows.len(),
    ensures
        chapter_lines(rows, k) == terminated(
            Seq::new(k as nat, |i: int| csv_row_text(rows[i].start@, rows[i].title@)),
        ),
    decreases k,
{
    reveal_strlit(",");
    reveal_strlit("\n");
    let ls = Seq::new(k as nat, |i: int| csv_row_text(rows[i].start@, rows[i].title@));
    if k > 0 {
        lemma_chapter_lines_terminated(rows, k - 1);
        assert(ls.drop_last() =~= Seq::new(
            (k - 1) as nat,
            |i: int| csv_row_text(rows[i].start@, rows[i].title@),
        ));
        assert(chapter_lines(rows, k) =~= terminated(ls.drop_last()) + ls.last() + seq!['\n']);
    } else {
        assert(ls =~= Seq::<Seq<char>>::empty());
    }
}

/// A CSV line whose time holds no comma reads back as that time and the
/// trimmed title.
proof fn lemma_csv_row_reads_back(time: Seq<char>, title: Seq<char>)
    requires
        free_of(time, ','),
    ensures
        chapter_csv_row_of(csv_row_text(time, title)) == Some((time, trim_seq(title))),
{
    reveal_strlit(",");
    assert(csv_row_text(time, title) =~= time + seq![','] + title);
    lemma_split_concat(time, title, ',');
    lemma_split_prefix_free(time, ',');
    lemma_split_char_nonempty(title, ',');
    let p = split_char(csv_row_text(time, title), ',');
    assert(p =~= seq![time] + split_char(title, ','));
    assert(p.skip(1) =~= split_char(title, ','));
    lemma_split_join(title, ',');
}

/// A line of the chapter CSV ends in neither `'\r'` nor holds a `'\n'` where
/// its fields do not.
proof fn lemma_csv_row_is_line(time: Seq<char>, title: Seq<char>)
    requires
        free_of(time, '\n'),
        free_of(title, '\n'),
        strip_cr(title) == title,
    ensures
        free_of(csv_row_text(time, title), '\n'),
        strip_cr(csv_row_text(time, title)) == csv_row_text(time, title),
{
    reveal_strlit(",");
    let t = csv_row_text(time, title);
    assert(t =~= time + seq![','] + title);
    assert forall|k: int| 0 <= k < t.len() implies t[k] != '\n' by {
        if k < time.len() {
            assert(t[k] == time[k]);
        } else if k > time.len() {
            assert(t[k] == title[k - time.len() - 1]);
        }
    }
    if title.len() > 0 {
        assert(t.last() == title.last());
    } else {
        assert(t.last() == ',');
    }
}

/// The chapter CSV reads back: its lines, read as rows of the CSV, give each
/// chapter's start time with its trimmed title, then the end time of the last
/// chapter with `End`. This holds where the times hold no comma, no field
/// holds a line break and no title ends in a carriage return.
pub proof fn lemma_chapter_csv_reads_back(rows: Seq<ProbedChapter>)
    requires
        forall|i: int|
            0 <= i < rows.len() ==> free_of(#[trigger] rows[i].start@, ',') && free_of(
                rows[i].start@,
                '\n',
            ) && free_of(rows[i].title@, '\n') && strip_cr(rows[i].title@) == rows[i].title@,
        rows.len() > 0 ==> free_of(rows.last().end@, ',') && free_of(rows.last().end@, '\n'),
    ensures
        lines_of(chapter_csv_of(rows)).len() == if rows.len() == 0 {
            0
        } else {
            rows.len() + 1
        },
        forall|i: int|
            0 <= i < rows.len() ==> chapter_csv_row_of(#[trigger] lines_of(chapter_csv_of(rows))[i])
                == Some((rows[i].start@, trim_seq(rows[i].title@))),
        rows.len() > 0 ==> chapter_csv_row_of(lines_of(chapter_csv_of(rows))[rows.len() as int])
            == Some((rows.last().end@, "End"@)),
{
    reveal_strlit(",");
    reveal_strlit("\n");
    reveal_strlit("End");
    let ls = chapter_csv_rows(rows);
    if rows.len() == 0 {
        assert(chapter_csv_of(rows) =~= terminated(ls));
    } else {
        let n = rows.len() as int;
        let body = Seq::new(rows.len(), |i: int| csv_row_text(rows[i].start@, rows[i].title@));
        lemma_chapter_lines_terminated(rows, n);
        assert(ls.drop_last() =~= body);
        assert(chapter_csv_of(rows) =~= terminated(ls));
        let end_title = "End"@;
        assert(end_title =~= seq!['E', 'n', 'd']);
        assert(free_of(end_title, '\n'));
        assert(strip_cr(end_title) == end_title);
        assert forall|i: int| 0 <= i < ls.len() implies free_of(#[trigger] ls[i], '\n') && strip_cr(ls[i])
            == ls[i] by {
            if i < n {
                lemma_csv_row_is_line(rows[i].start@, rows[i].title@);
            } else {
                lemma_csv_row_is_line(rows.last().end@, end_title);
            }
        }
        lemma_lines_of_terminated(ls);
        assert forall|i: int| 0 <= i < rows.len() implies chapter_csv_row_of(
            #[trigger] lines_of(chapter_csv_of(rows))[i],
        ) == Some((rows[i].start@, trim_seq(rows[i].title@))) by {
            assert(ls[i] == csv_row_text(rows[i].start@, rows[i].title@));
            lemma_csv_row_reads_back(rows[i].start@, rows[i].title@);
        }
        lemma_csv_row_reads_back(rows.last().end@, end_title);
        assert(trim_start(end_title) == end_title);
        assert(trim_end(end_title) == end_title);
    }
}

} // verus!
