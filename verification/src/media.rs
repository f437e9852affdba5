//! File names of media files: the stem and the lower-case extension that
//! output names are built from.
//!
//! The file name of a path is what std's `Path::file_name` gives for it; how a
//! path splits into components (separators, and on Windows drive and share
//! prefixes) is std's, and differs between platforms. From the file name on,
//! the stem and the extension follow the rules that `Path::file_stem` and
//! `Path::extension` document, stated and proved here.
use vstd::prelude::*;
use crate::text::{all_ascii, ascii_fold, ascii_lower, chars_of, free_of, lowercase_of, string_of, to_lowercase};

verus! {

/// Basic metadata about a media file, taken from its path.
pub struct MediaInfo {
    /// The file name without its extension (`"output"` where there is none).
    pub stem: String,
    /// The extension in lower case (empty where there is none).
    pub extension: String,
}

/// A path made of one plain component: not empty, not `"."` or `".."`, and
/// holding no `'/'`, `'\\'` or `':'`, so that on no platform it holds a
/// separator or a prefix.
pub open spec fn single_component(path: Seq<char>) -> bool {
    &&& path.len() > 0
    &&& path != seq!['.']
    &&& path != seq!['.', '.']
    &&& free_of(path, '/')
    &&& free_of(path, '\\')
    &&& free_of(path, ':')
}

/// The plain component after the last `'/'` of a path, where the text before
/// it holds no `'\\'` and the path does not start with two `'/'`: then the
/// path holds no verbatim or share prefix on any platform, and `'/'`
/// separates components on every platform, so that component is the last.
pub open spec fn final_plain_component(path: Seq<char>) -> Option<Seq<char>> {
    let i = last_index_of(path, '/');
    if i >= 0 && free_of(path.take(i), '\\') && !(path.len() >= 2 && path[0] == '/' && path[1] == '/')
        && single_component(path.skip(i + 1)) {
        Some(path.skip(i + 1))
    } else {
        None
    }
}

/// What std's `Path::file_name` gives for a path, as far as its documentation
/// says it on every platform: never the name `".."`; nothing for the empty
/// path or the path `".."`; a path of one plain component is its own file
/// name; and the directories before a final plain component are dropped.
pub open spec fn file_name_outcome(path: Seq<char>, name: Option<Seq<char>>) -> bool {
    &&& name matches Some(n) ==> n != seq!['.', '.']
    &&& path.len() == 0 ==> name is None
    &&& path == seq!['.', '.'] ==> name is None
    &&& single_component(path) ==> name == Some(path)
    &&& final_plain_component(path) matches Some(n) ==> name == Some(n)
}

/// The file name of a path: std's `Path::file_name`, as text.
/// Trusted: the final component of the path, where there is one, as std's
/// documentation describes it (see `file_name_outcome`). How std splits other
/// paths into components depends on the platform (on Windows, `'\\'`
/// separates too, drive and share prefixes are components of their own, and
/// verbatim paths do not split at `'/'`); that is not stated here.
#[verifier::external_body]
fn path_file_name(path: &str) -> (name: Option<String>)
    ensures
        file_name_outcome(path@, name.deep_view()),
{
    std::path::Path::new(path).file_name().and_then(|s| s.to_str()).map(|s| s.to_string())
}

/// The index of the last `c` in `s`, or -1.
pub open spec fn last_index_of(s: Seq<char>, c: char) -> int
    decreases s.len(),
{
    if s.len() == 0 {
        -1
    } else if s.last() == c {
        s.len() - 1
    } else {
        last_index_of(s.drop_last(), c)
    }
}

/// The stem of a file name (`Path::file_stem`): the part before the last
/// `'.'`, or the whole name where it has no `'.'` or only a leading one.
pub open spec fn stem_of(name: Seq<char>) -> Seq<char> {
    let i = last_index_of(name, '.');
    if i <= 0 {
        name
    } else {
        name.take(i)
    }
}

/// The extension of a file name (`Path::extension`): the part after the last
/// `'.'`, where that `'.'` is not the first character.
pub open spec fn extension_of(name: Seq<char>) -> Option<Seq<char>> {
    let i = last_index_of(name, '.');
    if i <= 0 {
        None
    } else {
        Some(name.skip(i + 1))
    }
}

/// The stem that `get_media_info` reports for a file name (`"output"` where
/// there is none).
pub open spec fn media_stem_of_name(name: Option<Seq<char>>) -> Seq<char> {
    match name {
        Some(n) => stem_of(n),
        None => seq!['o', 'u', 't', 'p', 'u', 't'],
    }
}

/// The extension, before lower-casing, that `get_media_info` reports for a
/// file name (empty where there is none).
pub open spec fn media_raw_extension_of_name(name: Option<Seq<char>>) -> Seq<char> {
    match name {
        Some(n) => match extension_of(n) {
            Some(e) => e,
            None => Seq::<char>::empty(),
        },
        None => Seq::<char>::empty(),
    }
}

/// `stem` and `extension` are what `get_media_info` reports for a file name:
/// the stem, and the extension lower-cased (an ASCII extension with its
/// letters folded to lower case).
pub open spec fn media_info_of_name(name: Option<Seq<char>>, stem: Seq<char>, extension: Seq<char>) -> bool {
    let raw = media_raw_extension_of_name(name);
    &&& stem == media_stem_of_name(name)
    &&& extension == lowercase_of(raw)
    &&& all_ascii(raw) ==> extension == ascii_fold(raw)
}

/// The index of the last `c` in `cs`, if any.
fn last_index(cs: &Vec<char>, from: usize, to: usize, c: char) -> (r: Option<usize>)
    requires
        from <= to <= cs@.len(),
    ensures
        match r {
            Some(i) => from <= i < to && last_index_of(cs@.subrange(from as int, to as int), c) == i
                - from,
            None => last_index_of(cs@.subrange(from as int, to as int), c) == -1,
        },
{
    let ghost s = cs@.subrange(from as int, to as int);
    let mut k: usize = to;
    assert(s.take(to - from) =~= s);
    while k > from
        invariant
            from <= k <= to <= cs@.len(),
            s == cs@.subrange(from as int, to as int),
            last_index_of(s, c) == last_index_of(s.take(k - from), c),
        decreases k,
    {
        let ghost t = s.take(k - from);
        assert(t.last() == cs@[k - 1]);
        assert(t.drop_last() =~= s.take(k - 1 - from));
        if cs[k - 1] == c {
            return Some(k - 1);
        }
        k = k - 1;
    }
    assert(s.take(0) =~= Seq::<char>::empty());
    assert(s.take(to - from) =~= s);
    None
}

/// The stem and the lower-case extension of a file name (`None` where the
/// path names no file): the stem is `"output"` where there is no file name,
/// and the extension is empty where there is none.
pub fn media_info_from_file_name(name: &Option<String>) -> (info: MediaInfo)
    ensures
        media_info_of_name(name.deep_view(), info.stem@, info.extension@),
{
    match name {
        None => {
            let stem = String::from_str("output");
            proof {
                reveal_strlit("output");
            }
            assert(stem@ =~= media_stem_of_name(name.deep_view()));
            let empty = String::new();
            let extension = to_lowercase(empty.as_str());
            MediaInfo { stem, extension }
        },
        Some(n) => {
            let cs = chars_of(n.as_str());
            let b = cs.len();
            assert(cs@.subrange(0, b as int) =~= cs@);
            match last_index(&cs, 0, b, '.') {
                Some(i) => {
                    if i > 0 {
                        let stem = string_of(&cs, 0, i);
                        assert(stem@ =~= cs@.take(i as int));
                        let raw = string_of(&cs, i + 1, b);
                        assert(raw@ =~= cs@.skip(i + 1));
                        let extension = to_lowercase(raw.as_str());
                        MediaInfo { stem, extension }
                    } else {
                        let stem = string_of(&cs, 0, b);
                        let empty = String::new();
                        let extension = to_lowercase(empty.as_str());
                        MediaInfo { stem, extension }
                    }
                },
                None => {
                    let stem = string_of(&cs, 0, b);
                    let empty = String::new();
                    let extension = to_lowercase(empty.as_str());
                    MediaInfo { stem, extension }
                },
            }
        },
    }
}

/// Extracts the file stem and the lower-case extension of a path, from the
/// file name that std's `Path` reads in it.
///
/// Where the path names no file, the stem is `"output"`; where the file name
/// has no extension, the extension is empty.
pub fn get_media_info(path_str: &str) -> (info: MediaInfo)
    ensures
        exists|name: Option<Seq<char>>|
            file_name_outcome(path_str@, name) && #[trigger] media_info_of_name(
                name,
                info.stem@,
                info.extension@,
            ),
        single_component(path_str@) ==> media_info_of_name(Some(path_str@), info.stem@, info.extension@),
        final_plain_component(path_str@) matches Some(n) ==> media_info_of_name(
            Some(n),
            info.stem@,
            info.extension@,
        ),
        path_str@.len() == 0 ==> info.stem@ == "output"@ && info.extension@.len() == 0,
{
    let name = path_file_name(path_str);
    let info = media_info_from_file_name(&name);
    assert(media_info_of_name(name.deep_view(), info.stem@, info.extension@));
    proof {
        reveal_strlit("output");
        if path_str@.len() == 0 {
            assert(ascii_fold(Seq::<char>::empty()) =~= Seq::<char>::empty());
            assert(info.stem@ =~= "output"@);
        }
    }
    info
}

/// The stem of a file name, or `default` where there is none.
pub open spec fn stem_or(name: Option<Seq<char>>, default: Seq<char>) -> Seq<char> {
    match name {
        Some(n) => stem_of(n),
        None => default,
    }
}

/// The stem of a file name (`None` where the path names no file), or
/// `default`.
pub fn stem_from_file_name(name: &Option<String>, default: &str) -> (r: String)
    ensures
        r@ == stem_or(name.deep_view(), default@),
{
    match name {
        None => String::from_str(default),
        Some(n) => {
            let cs = chars_of(n.as_str());
            let b = cs.len();
            assert(cs@.subrange(0, b as int) =~= cs@);
            match last_index(&cs, 0, b, '.') {
                Some(i) => {
                    if i > 0 {
                        let stem = string_of(&cs, 0, i);
                        assert(stem@ =~= cs@.take(i as int));
                        stem
                    } else {
                        string_of(&cs, 0, b)
                    }
                },
                None => string_of(&cs, 0, b),
            }
        },
    }
}

/// Extracts the stem of a path's file name, falling back to `default` where
/// the path names no file (`path.file_stem()` with a fallback).
pub fn file_stem_or(path: &str, default: &str) -> (r: String)
    ensures
        exists|name: Option<Seq<char>>|
            file_name_outcome(path@, name) && r@ == #[trigger] stem_or(name, default@),
        single_component(path@) ==> r@ == stem_of(path@),
        final_plain_component(path@) matches Some(n) ==> r@ == stem_of(n),
        path@.len() == 0 ==> r@ == default@,
{
    let name = path_file_name(path);
    let r = stem_from_file_name(&name, default);
    assert(r@ == stem_or(name.deep_view(), default@));
    r
}

proof fn lemma_last_index_range(s: Seq<char>, c: char)
    ensures
        -1 <= last_index_of(s, c) < s.len(),
        last_index_of(s, c) >= 0 ==> s[last_index_of(s, c)] == c,
        forall|k: int| last_index_of(s, c) < k < s.len() ==> s[k] != c,
    decreases s.len(),
{
    if s.len() > 0 && s.last() != c {
        lemma_last_index_range(s.drop_last(), c);
        assert forall|k: int| last_index_of(s, c) < k < s.len() implies s[k] != c by {
            if k < s.len() - 1 {
                assert(s[k] == s.drop_last()[k]);
            }
        }
    }
}

/// A file name is its stem, followed by a dot and its extension where it has
/// one; the extension holds no dot.
pub proof fn lemma_stem_and_extension_rebuild_name(name: Seq<char>)
    ensures
        match extension_of(name) {
            Some(e) => stem_of(name) + seq!['.'] + e == name && forall|k: int|
                0 <= k < e.len() ==> e[k] != '.',
            None => stem_of(name) == name,
        },
{
    lemma_last_index_range(name, '.');
    let i = last_index_of(name, '.');
    if i > 0 {
        let e = name.skip(i + 1);
        assert(name.take(i) + seq!['.'] + e =~= name);
        assert forall|k: int| 0 <= k < e.len() implies e[k] != '.' by {
            assert(e[k] == name[k + i + 1]);
        }
    }
}

/// Folding an ASCII letter to lower case keeps it ASCII, is idempotent, and
/// neither makes nor removes a `'.'`, `'/'`, `'\\'` or `':'`.
proof fn lemma_ascii_lower(c: char)
    ensures
        (c as u32) < 128 ==> (ascii_lower(c) as u32) < 128,
        ascii_lower(ascii_lower(c)) == ascii_lower(c),
        (ascii_lower(c) == '.') == (c == '.'),
        (ascii_lower(c) == '/') == (c == '/'),
        (ascii_lower(c) == '\\') == (c == '\\'),
        (ascii_lower(c) == ':') == (c == ':'),
{
    if 'A' <= c && c <= 'Z' {
        let d = ascii_lower(c);
        assert((d as u32) == (c as u32) + 32);
    }
}

proof fn lemma_last_index_after(a: Seq<char>, b: Seq<char>, c: char)
    requires
        free_of(b, c),
    ensures
        last_index_of(a + seq![c] + b, c) == a.len(),
    decreases b.len(),
{
    let s = a + seq![c] + b;
    if b.len() == 0 {
        assert(s.drop_last() =~= a);
        assert(s.last() == c);
    } else {
        lemma_last_index_after(a, b.drop_last(), c);
        assert(s.drop_last() =~= a + seq![c] + b.drop_last());
        assert(s.last() == b.last());
    }
}

/// Reading back the name that `get_media_info` reports, its stem, a dot and
/// its lower-case extension, gives the same stem and extension again, whatever
/// std's `Path::file_name` gives within what its documentation says. This
/// holds where the extension is ASCII and not empty and neither the stem nor
/// the extension holds a `'/'`, `'\\'` or `':'` (with one, the name may read
/// as a path of several components or with a drive prefix).
pub proof fn lemma_media_info_reread(name: Option<Seq<char>>, again: Option<Seq<char>>)
    requires
        media_raw_extension_of_name(name).len() > 0,
        all_ascii(media_raw_extension_of_name(name)),
        free_of(media_stem_of_name(name), '/'),
        free_of(media_stem_of_name(name), '\\'),
        free_of(media_stem_of_name(name), ':'),
        free_of(media_raw_extension_of_name(name), '/'),
        free_of(media_raw_extension_of_name(name), '\\'),
        free_of(media_raw_extension_of_name(name), ':'),
        file_name_outcome(
            media_stem_of_name(name) + seq!['.'] + ascii_fold(media_raw_extension_of_name(name)),
            again,
        ),
    ensures
        ({
            let stem = media_stem_of_name(name);
            let ext = ascii_fold(media_raw_extension_of_name(name));
            &&& media_stem_of_name(again) == stem
            &&& media_raw_extension_of_name(again) == ext
            &&& all_ascii(ext)
            &&& ascii_fold(ext) == ext
        }),
{
    let raw = media_raw_extension_of_name(name);
    let n0 = name->Some_0;
    lemma_stem_and_extension_rebuild_name(n0);
    lemma_last_index_range(n0, '.');
    let stem = media_stem_of_name(name);
    let ext = ascii_fold(raw);
    let full = stem + seq!['.'] + ext;
    assert(stem + seq!['.'] + raw == n0);
    assert(stem.len() > 0);
    assert forall|k: int| 0 <= k < ext.len() implies ext[k] != '.' && ext[k] != '/' && ext[k] != '\\'
        && ext[k] != ':' && (ext[k] as u32) < 128 && ascii_lower(ext[k]) == ext[k] by {
        lemma_ascii_lower(raw[k]);
    }
    assert(ascii_fold(ext) =~= ext);
    assert forall|k: int| 0 <= k < full.len() implies full[k] != '/' && full[k] != '\\' && full[k] != ':' by {
        if k < stem.len() {
            assert(full[k] == stem[k]);
        } else if k > stem.len() {
            assert(full[k] == ext[k - stem.len() - 1]);
        }
    }
    assert(full.len() >= 3);
    assert(full != seq!['.']);
    assert(full != seq!['.', '.']);
    assert(single_component(full));
    assert(again == Some(full));
    lemma_last_index_after(stem, ext, '.');
    assert(full.take(stem.len() as int) =~= stem);
    assert(full.skip(stem.len() + 1int) =~= ext);
}

} // verus!
