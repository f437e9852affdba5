//! Text listings that the tools read: cut lists (`start,duration` per line),
//! time stamp lists, and what ffmpeg and ffprobe print.
use vstd::prelude::*;
use crate::numfmt::{parse_u32, parse_u32_spec};
use crate::text::{
    chars_of,
    contains,
    contains_seq,
    is_white_space,
    last_occurrence,
    lemma_split_char_nonempty,
    lines,
    lines_of,
    occurs_at,
    split,
    split_char,
    string_of,
    trim,
    trim_seq,
    trim_start,
    white_space,
};

verus! {

/// The `(start, duration)` fields of a cut list line, trimmed; lines with
/// fewer than two comma-separated fields carry no cut.
pub open spec fn cutlist_entry_of(line: Seq<char>) -> Option<(Seq<char>, Seq<char>)> {
    let p = split_char(line, ',');
    if p.len() >= 2 {
        Some((trim_seq(p[0]), trim_seq(p[1])))
    } else {
        None
    }
}

/// Reads one line of a cut list.
pub fn cutlist_entry(line: &str) -> (r: Option<(String, String)>)
    ensures
        r.deep_view() == cutlist_entry_of(line@),
{
    let parts = split(line, ',');
    if parts.len() >= 2 {
        let start = trim(parts[0].as_str());
        let duration = trim(parts[1].as_str());
        Some((start, duration))
    } else {
        None
    }
}

/// The start field of a cut list line: its first comma-separated field,
/// trimmed.
pub open spec fn cutlist_start_of(line: Seq<char>) -> Seq<char> {
    trim_seq(split_char(line, ',')[0])
}

/// Reads the start field of a cut list line.
pub fn cutlist_start(line: &str) -> (r: String)
    ensures
        r@ == cutlist_start_of(line@),
{
    let parts = split(line, ',');
    proof {
        lemma_split_char_nonempty(line@, ',');
    }
    trim(parts[0].as_str())
}

/// The trimmed lines that are not blank, in order.
pub open spec fn nonblank_trimmed(ls: Seq<Seq<char>>) -> Seq<Seq<char>>
    decreases ls.len(),
{
    if ls.len() == 0 {
        Seq::<Seq<char>>::empty()
    } else {
        let rest = nonblank_trimmed(ls.drop_last());
        let t = trim_seq(ls.last());
        if t.len() == 0 {
            rest
        } else {
            rest.push(t)
        }
    }
}

/// Keeps the non-blank lines of a time stamp listing, trimmed.
pub fn nonblank_lines(ls: &Vec<String>) -> (r: Vec<String>)
    ensures
        r.deep_view() == nonblank_trimmed(ls.deep_view()),
{
    let ghost ld = ls.deep_view();
    let n = ls.len();
    let mut r: Vec<String> = Vec::new();
    let mut i: usize = 0;
    assert(ld.take(0) =~= Seq::<Seq<char>>::empty());
    while i < n
        invariant
            n == ld.len(),
            ld == ls.deep_view(),
            i <= n,
            r.deep_view() == nonblank_trimmed(ld.take(i as int)),
        decreases n - i,
    {
        assert(ld.take(i + 1).drop_last() =~= ld.take(i as int));
        assert(ls[i as int]@ == ld[i as int]);
        let t = trim(ls[i].as_str());
        if t.unicode_len() > 0 {
            let ghost before = r.deep_view();
            r.push(t);
            assert(r.deep_view() =~= before.push(t@));
        }
        i = i + 1;
    }
    assert(ld.take(n as int) =~= ld);
    r
}

/// Consecutive pairs `(ts[0], ts[1])`, `(ts[2], ts[3])`, ... of a list; an
/// odd last element is left out (`chunks_exact(2)`).
pub open spec fn pairs_of(ts: Seq<Seq<char>>) -> Seq<(Seq<char>, Seq<char>)> {
    Seq::new(ts.len() / 2, |k: int| (ts[2 * k], ts[2 * k + 1]))
}

/// Groups a time stamp list into `(start, end)` pairs.
pub fn clip_pairs(ts: &Vec<String>) -> (r: Vec<(String, String)>)
    ensures
        r.deep_view() == pairs_of(ts.deep_view()),
{
    let ghost td = ts.deep_view();
    let n = ts.len();
    let mut r: Vec<(String, String)> = Vec::new();
    let mut k: usize = 0;
    while k < n / 2
        invariant
            n == td.len(),
            td == ts.deep_view(),
            k <= n / 2,
            r.deep_view() =~= pairs_of(td).take(k as int),
        decreases n / 2 - k,
    {
        let a = String::from_str(ts[2 * k].as_str());
        let b = String::from_str(ts[2 * k + 1].as_str());
        assert(ts[2 * k as int]@ == td[2 * k as int]);
        assert(ts[2 * k + 1]@ == td[2 * k + 1]);
        let ghost before = r.deep_view();
        r.push((a, b));
        assert(r.deep_view() =~= before.push((td[2 * k as int], td[2 * k + 1])));
        k = k + 1;
        assert(r.deep_view() =~= pairs_of(td).take(k as int));
    }
    assert(pairs_of(td).take((n / 2) as int) =~= pairs_of(td));
    r
}

/// Whether a time stamp listing is written in `HH:MM:SS` form: its first line
/// (none counts as empty) holds a `':'`.
pub open spec fn is_sexagesimal_listing_of(content: Seq<char>) -> bool {
    let ls = lines_of(content);
    let first = if ls.len() > 0 {
        ls[0]
    } else {
        Seq::<char>::empty()
    };
    contains_seq(first, seq![':'])
}

/// Tells whether a time stamp listing is written in `HH:MM:SS` form.
pub fn is_sexagesimal_listing(content: &str) -> (b: bool)
    ensures
        b == is_sexagesimal_listing_of(content@),
{
    let ls = lines(content);
    let colon = ":";
    proof {
        reveal_strlit(":");
    }
    assert(colon@ =~= seq![':']);
    if ls.len() > 0 {
        assert(ls[0]@ == lines_of(content@)[0]);
        contains(ls[0].as_str(), colon)
    } else {
        let empty = String::new();
        contains(empty.as_str(), colon)
    }
}

/// The text after the last occurrence of `key` in `s`, where there is one.
pub open spec fn after_last_of(s: Seq<char>, key: Seq<char>) -> Option<Seq<char>> {
    if contains_seq(s, key) {
        let i = choose|i: int| occurs_at(s, key, i) && forall|j: int| i < j ==> !occurs_at(s, key, j);
        Some(s.skip(i + key.len()))
    } else {
        None
    }
}

/// Finds the text after the last occurrence of `key` in `s`.
pub fn after_last(s: &str, key: &str) -> (r: Option<String>)
    ensures
        r.deep_view() == after_last_of(s@, key@),
{
    let cs = chars_of(s);
    let ks = chars_of(key);
    match last_occurrence(&cs, &ks) {
        Some(i) => {
            proof {
                let j = choose|j: int|
                    occurs_at(s@, key@, j) && forall|q: int| j < q ==> !occurs_at(s@, key@, q);
                assert(occurs_at(s@, key@, i as int));
                if j < i {
                    assert(!occurs_at(s@, key@, i as int));
                }
                if i < j {
                    assert(!occurs_at(s@, key@, j));
                }
                assert(j == i);
            }
            let total = cs.len();
            let klen = ks.len();
            assert(i + klen <= total);
            let r = string_of(&cs, i + klen, total);
            assert(r@ =~= s@.skip(i + key@.len()));
            Some(r)
        },
        None => None,
    }
}

/// The maximal run of non-white-space characters at the start of `s`.
pub open spec fn leading_token(s: Seq<char>) -> Seq<char>
    decreases s.len(),
{
    if s.len() == 0 || is_white_space(s[0]) {
        Seq::<char>::empty()
    } else {
        seq![s[0]] + leading_token(s.drop_first())
    }
}

/// The first white-space-separated word of `s` (`split_whitespace().next()`).
pub open spec fn first_word_of(s: Seq<char>) -> Option<Seq<char>> {
    let t = trim_start(s);
    if t.len() == 0 {
        None
    } else {
        Some(leading_token(t))
    }
}

proof fn lemma_trim_start_skip(s: Seq<char>, i: int)
    requires
        0 <= i <= s.len(),
        forall|k: int| 0 <= k < i ==> is_white_space(s[k]),
    ensures
        trim_start(s) == trim_start(s.skip(i)),
    decreases i,
{
    if i > 0 {
        lemma_trim_start_skip(s.drop_first(), i - 1);
        assert(s.drop_first().skip(i - 1) =~= s.skip(i));
    } else {
        assert(s.skip(0) =~= s);
    }
}

proof fn lemma_leading_token_stops(s: Seq<char>, j: int)
    requires
        0 <= j <= s.len(),
        j == s.len() || is_white_space(s[j]),
        forall|k: int| 0 <= k < j ==> !is_white_space(s[k]),
    ensures
        leading_token(s) == s.take(j),
    decreases j,
{
    if j > 0 {
        lemma_leading_token_stops(s.drop_first(), j - 1);
        assert(seq![s[0]] + s.drop_first().take(j - 1) =~= s.take(j));
    } else {
        assert(s.take(0) =~= Seq::<char>::empty());
    }
}

/// Finds the first white-space-separated word of `s`.
pub fn first_word(s: &str) -> (r: Option<String>)
    ensures
        r.deep_view() == first_word_of(s@),
{
    let cs = chars_of(s);
    let n = cs.len();
    let mut i: usize = 0;
    while i < n && white_space(cs[i])
        invariant
            cs@ == s@,
            n == cs@.len(),
            i <= n,
            forall|k: int| 0 <= k < i ==> is_white_space(s@[k]),
        decreases n - i,
    {
        i = i + 1;
    }
    proof {
        lemma_trim_start_skip(s@, i as int);
    }
    if i == n {
        assert(s@.skip(n as int) =~= Seq::<char>::empty());
        return None;
    }
    let ghost t = s@.skip(i as int);
    assert(trim_start(t) == t);
    let mut j: usize = i;
    while j < n && !white_space(cs[j])
        invariant
            cs@ == s@,
            n == cs@.len(),
            i <= j <= n,
            forall|k: int| i <= k < j ==> !is_white_space(s@[k]),
        decreases n - j,
    {
        j = j + 1;
    }
    proof {
        assert forall|k: int| 0 <= k < j - i implies !is_white_space(t[k]) by {
            assert(t[k] == s@[k + i]);
        }
        if j < n {
            assert(t[j - i] == s@[j as int]);
        }
        lemma_leading_token_stops(t, j - i);
        assert(t.take(j - i) =~= s@.subrange(i as int, j as int));
    }
    Some(string_of(&cs, i, j))
}

/// The time that a line of ffmpeg's `metadata=print` output reports: the text
/// after the last `pts_time:`, trimmed.
pub open spec fn pts_time_text_of(line: Seq<char>) -> Option<Seq<char>> {
    match after_last_of(line, "pts_time:"@) {
        Some(rest) => Some(trim_seq(rest)),
        None => None,
    }
}

/// Reads the `pts_time:` value of a `metadata=print` output line.
pub fn pts_time_text(line: &str) -> (r: Option<String>)
    ensures
        r.deep_view() == pts_time_text_of(line@),
{
    match after_last(line, "pts_time:") {
        Some(rest) => Some(trim(rest.as_str())),
        None => None,
    }
}

/// The time that a line of ffmpeg's `showinfo` output reports: the first word
/// after the last `pts_time:`.
pub open spec fn pts_time_word_of(line: Seq<char>) -> Option<Seq<char>> {
    match after_last_of(line, "pts_time:"@) {
        Some(rest) => first_word_of(rest),
        None => None,
    }
}

/// Reads the `pts_time:` value of a `showinfo` output line.
pub fn pts_time_word(line: &str) -> (r: Option<String>)
    ensures
        r.deep_view() == pts_time_word_of(line@),
{
    match after_last(line, "pts_time:") {
        Some(rest) => first_word(rest.as_str()),
        None => None,
    }
}

/// The first line of `ls` that holds `key`.
pub open spec fn first_line_with(ls: Seq<Seq<char>>, key: Seq<char>) -> Option<Seq<char>>
    decreases ls.len(),
{
    if ls.len() == 0 {
        None
    } else if contains_seq(ls[0], key) {
        Some(ls[0])
    } else {
        first_line_with(ls.drop_first(), key)
    }
}

/// A value of the JSON that `loudnorm=print_format=json` prints: on the first
/// line that holds `key`, the text between its third and fourth `'"'`; empty
/// where there is none.
pub open spec fn loudnorm_value_of(measurements: Seq<char>, key: Seq<char>) -> Seq<char> {
    match first_line_with(lines_of(measurements), key) {
        Some(line) => {
            let p = split_char(line, '"');
            if p.len() > 3 {
                p[3]
            } else {
                Seq::<char>::empty()
            }
        },
        None => Seq::<char>::empty(),
    }
}

/// Reads a measured value from the loudnorm analysis output.
pub fn loudnorm_value(measurements: &str, key: &str) -> (r: String)
    ensures
        r@ == loudnorm_value_of(measurements@, key@),
{
    let ls = lines(measurements);
    let ghost ld = ls.deep_view();
    let n = ls.len();
    let mut i: usize = 0;
    assert(ld.skip(0) =~= ld);
    while i < n
        invariant
            n == ld.len(),
            ld == ls.deep_view(),
            ld == lines_of(measurements@),
            i <= n,
            first_line_with(ld, key@) == first_line_with(ld.skip(i as int), key@),
        decreases n - i,
    {
        assert(ls[i as int]@ == ld[i as int]);
        assert(ld.skip(i as int)[0] == ld[i as int]);
        if contains(ls[i].as_str(), key) {
            let parts = split(ls[i].as_str(), '"');
            if parts.len() > 3 {
                return String::from_str(parts[3].as_str());
            } else {
                return String::new();
            }
        }
        assert(ld.skip(i as int).drop_first() =~= ld.skip(i + 1));
        i = i + 1;
    }
    assert(ld.skip(n as int) =~= Seq::<Seq<char>>::empty());
    String::new()
}

/// The numbers among `parts` that read as `u32`, in order
/// (`filter_map(|p| p.parse().ok())`).
pub open spec fn parsed_u32s(parts: Seq<Seq<char>>) -> Seq<u32>
    decreases parts.len(),
{
    if parts.len() == 0 {
        Seq::<u32>::empty()
    } else {
        let rest = parsed_u32s(parts.drop_last());
        match parse_u32_spec(parts.last()) {
            Some(v) => rest.push(v),
            None => rest,
        }
    }
}

/// The frame size that ffprobe prints as `WIDTHxHEIGHT`: the parts of the
/// trimmed text around `'x'` that read as numbers, where there are exactly
/// two, else `default`.
pub open spec fn dimensions_of(out: Seq<char>, default: (u32, u32)) -> (u32, u32) {
    let v = parsed_u32s(split_char(trim_seq(out), 'x'));
    if v.len() == 2 {
        (v[0], v[1])
    } else {
        default
    }
}

/// Reads a `WIDTHxHEIGHT` frame size printed by ffprobe.
pub fn parse_dimensions(out: &str, default: (u32, u32)) -> (r: (u32, u32))
    ensures
        r == dimensions_of(out@, default),
{
    let t = trim(out);
    let parts = split(t.as_str(), 'x');
    let ghost pd = parts.deep_view();
    let n = parts.len();
    let mut v: Vec<u32> = Vec::new();
    let mut i: usize = 0;
    assert(pd.take(0) =~= Seq::<Seq<char>>::empty());
    while i < n
        invariant
            n == pd.len(),
            pd == parts.deep_view(),
            i <= n,
            v@ == parsed_u32s(pd.take(i as int)),
        decreases n - i,
    {
        assert(pd.take(i + 1).drop_last() =~= pd.take(i as int));
        assert(parts[i as int]@ == pd[i as int]);
        match parse_u32(parts[i].as_str()) {
            Some(x) => {
                v.push(x);
            },
            None => {},
        }
        i = i + 1;
    }
    assert(pd.take(n as int) =~= pd);
    if v.len() == 2 {
        (v[0], v[1])
    } else {
        default
    }
}

/// The height that ffprobe prints for a still image: the trimmed text read as
/// a number, 720 where it is not one.
pub open spec fn frame_height_of(out: Seq<char>) -> u32 {
    match parse_u32_spec(trim_seq(out)) {
        Some(h) => h,
        None => 720,
    }
}

/// Reads the frame height printed by ffprobe.
pub fn parse_frame_height(out: &str) -> (h: u32)
    ensures
        h == frame_height_of(out@),
{
    let t = trim(out);
    match parse_u32(t.as_str()) {
        Some(h) => h,
        None => 720,
    }
}

/// The frame size that the logo remover reads: where the trimmed text has
/// exactly two parts around `'x'`, each read as a number (0 where it is not).
pub open spec fn probed_size_of(out: Seq<char>) -> Option<(u32, u32)> {
    let p = split_char(trim_seq(out), 'x');
    if p.len() == 2 {
        Some(
            (
                match parse_u32_spec(p[0]) {
                    Some(w) => w,
                    None => 0,
                },
                match parse_u32_spec(p[1]) {
                    Some(h) => h,
                    None => 0,
                },
            ),
        )
    } else {
        None
    }
}

/// Reads the frame size for the logo remover's bounds check.
pub fn probed_size(out: &str) -> (r: Option<(u32, u32)>)
    ensures
        r == probed_size_of(out@),
{
    let t = trim(out);
    let parts = split(t.as_str(), 'x');
    if parts.len() == 2 {
        let w = match parse_u32(parts[0].as_str()) {
            Some(w) => w,
            None => 0,
        };
        let h = match parse_u32(parts[1].as_str()) {
            Some(h) => h,
            None => 0,
        };
        Some((w, h))
    } else {
        None
    }
}

/// Whether ffmpeg's help for an encoder shows that it knows the encoder:
/// neither its standard output nor its error output (where ffmpeg reports an
/// unknown encoder) says `not recognized`.
pub fn encoder_recognized(stdout: &str, stderr: &str) -> (b: bool)
    ensures
        b == (!contains_seq(stdout@, "not recognized"@) && !contains_seq(stderr@, "not recognized"@)),
{
    let in_out = contains(stdout, "not recognized");
    let in_err = contains(stderr, "not recognized");
    !in_out && !in_err
}

/// Whether ffmpeg's encoder list offers the NVIDIA HEVC encoder.
pub fn lists_hevc_nvenc(encoders: &str) -> (b: bool)
    ensures
        b == contains_seq(encoders@, "hevc_nvenc"@),
{
    contains(encoders, "hevc_nvenc")
}

/// The title and file extension that `yt-dlp --get-title --get-filename`
/// prints: its first two lines, trimmed, `"remote_video"` and `"mp4"` where
/// they are missing.
pub open spec fn remote_title_of(meta: Seq<char>) -> Seq<char> {
    let ls = lines_of(meta);
    trim_seq(
        if ls.len() > 0 {
            ls[0]
        } else {
            "remote_video"@
        },
    )
}

/// See `remote_title_of`.
pub open spec fn remote_extension_of(meta: Seq<char>) -> Seq<char> {
    let ls = lines_of(meta);
    trim_seq(
        if ls.len() > 1 {
            ls[1]
        } else {
            "mp4"@
        },
    )
}

/// Reads the title and the extension of a remote video from yt-dlp's output.
pub fn remote_title_and_extension(meta: &str) -> (r: (String, String))
    ensures
        r.0@ == remote_title_of(meta@),
        r.1@ == remote_extension_of(meta@),
{
    let ls = lines(meta);
    let title = if ls.len() > 0 {
        trim(ls[0].as_str())
    } else {
        trim("remote_video")
    };
    let ext = if ls.len() > 1 {
        trim(ls[1].as_str())
    } else {
        trim("mp4")
    };
    (title, ext)
}

/// The stream URLs that `yt-dlp -g` prints, one per line of the trimmed
/// output.
pub fn stream_urls(out: &str) -> (r: Vec<String>)
    ensures
        r.deep_view() == lines_of(trim_seq(out@)),
{
    let t = trim(out);
    lines(t.as_str())
}

} // verus!
