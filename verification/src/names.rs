//! The names of the files that the tools write.
use vstd::prelude::*;
use crate::numfmt::{decimal, padded_decimal_string, zero_padded};

verus! {

/// An output name made of the input's stem, a label and an extension: `{stem}{label}.{ext}`.
pub open spec fn suffixed_name_of(stem: Seq<char>, label: Seq<char>, ext: Seq<char>) -> Seq<char> {
    stem + label + "."@ + ext
}

/// Builds the text of `suffixed_name_of`.
pub fn suffixed_name(stem: &str, label: &str, ext: &str) -> (r: String)
    ensures
        r@ == suffixed_name_of(stem@, label@, ext@),
{
    let mut r = String::new();
    r.append(stem);
    r.append(label);
    r.append(".");
    r.append(ext);
    assert(r@ =~= suffixed_name_of(stem@, label@, ext@));
    r
}

/// An output name that carries a time in brackets:
/// `{prefix}{stem}{label}[{inner}].{ext}`.
pub open spec fn bracketed_name_of(
    prefix: Seq<char>,
    stem: Seq<char>,
    label: Seq<char>,
    inner: Seq<char>,
    ext: Seq<char>,
) -> Seq<char> {
    prefix + stem + label + "["@ + inner + "]."@ + ext
}

/// Builds the text of `bracketed_name_of`.
pub fn bracketed_name(prefix: &str, stem: &str, label: &str, inner: &str, ext: &str) -> (r: String)
    ensures
        r@ == bracketed_name_of(prefix@, stem@, label@, inner@, ext@),
{
    let mut r = String::new();
    r.append(prefix);
    r.append(stem);
    r.append(label);
    r.append("[");
    r.append(inner);
    r.append("].");
    r.append(ext);
    assert(r@ =~= bracketed_name_of(prefix@, stem@, label@, inner@, ext@));
    r
}

/// The name of an overlaid clip: `{stem}-overlay-{overlay_stem}-[{time}].mp4`.
pub open spec fn overlay_name_of(stem: Seq<char>, overlay_stem: Seq<char>, time: Seq<char>) -> Seq<char> {
    stem + "-overlay-"@ + overlay_stem + "-["@ + time + "].mp4"@
}

/// Builds the text of `overlay_name_of`.
pub fn overlay_name(stem: &str, overlay_stem: &str, time: &str) -> (r: String)
    ensures
        r@ == overlay_name_of(stem@, overlay_stem@, time@),
{
    let mut r = String::new();
    r.append(stem);
    r.append("-overlay-");
    r.append(overlay_stem);
    r.append("-[");
    r.append(time);
    r.append("].mp4");
    assert(r@ =~= overlay_name_of(stem@, overlay_stem@, time@));
    r
}

/// The name of a cross-faded pair of clips: `{stem}-xfade-{transition}-[{time}].mp4`.
pub open spec fn xfade_name_of(stem: Seq<char>, transition: Seq<char>, time: Seq<char>) -> Seq<char> {
    stem + "-xfade-"@ + transition + "-["@ + time + "].mp4"@
}

/// Builds the text of `xfade_name_of`.
pub fn xfade_name(stem: &str, transition: &str, time: &str) -> (r: String)
    ensures
        r@ == xfade_name_of(stem@, transition@, time@),
{
    let mut r = String::new();
    r.append(stem);
    r.append("-xfade-");
    r.append(transition);
    r.append("-[");
    r.append(time);
    r.append("].mp4");
    assert(r@ =~= xfade_name_of(stem@, transition@, time@));
    r
}

/// The name of a zoom animation: `{stem}-zoom-{zoom}-{position}-[{time}].mp4`.
pub open spec fn zoom_name_of(stem: Seq<char>, zoom: Seq<char>, position: Seq<char>, time: Seq<char>) -> Seq<char> {
    stem + "-zoom-"@ + zoom + "-"@ + position + "-["@ + time + "].mp4"@
}

/// Builds the text of `zoom_name_of`.
pub fn zoom_name(stem: &str, zoom: &str, position: &str, time: &str) -> (r: String)
    ensures
        r@ == zoom_name_of(stem@, zoom@, position@, time@),
{
    let mut r = String::new();
    r.append(stem);
    r.append("-zoom-");
    r.append(zoom);
    r.append("-");
    r.append(position);
    r.append("-[");
    r.append(time);
    r.append("].mp4");
    assert(r@ =~= zoom_name_of(stem@, zoom@, position@, time@));
    r
}

/// The name of a pan animation: `{stem}-pan-{direction}-[{time}].mp4`.
pub open spec fn pan_name_of(stem: Seq<char>, direction: Seq<char>, time: Seq<char>) -> Seq<char> {
    stem + "-pan-"@ + direction + "-["@ + time + "].mp4"@
}

/// Builds the text of `pan_name_of`.
pub fn pan_name(stem: &str, direction: &str, time: &str) -> (r: String)
    ensures
        r@ == pan_name_of(stem@, direction@, time@),
{
    let mut r = String::new();
    r.append(stem);
    r.append("-pan-");
    r.append(direction);
    r.append("-[");
    r.append(time);
    r.append("].mp4");
    assert(r@ =~= pan_name_of(stem@, direction@, time@));
    r
}

/// The name of a clip cut between two times: `{stem}-[{start}{sep}{end}].{ext}`.
pub open spec fn span_name_of(stem: Seq<char>, start: Seq<char>, sep: Seq<char>, end: Seq<char>, ext: Seq<char>) -> Seq<char> {
    stem + "-["@ + start + sep + end + "]."@ + ext
}

/// Builds the text of `span_name_of`.
pub fn span_name(stem: &str, start: &str, sep: &str, end: &str, ext: &str) -> (r: String)
    ensures
        r@ == span_name_of(stem@, start@, sep@, end@, ext@),
{
    let mut r = String::new();
    r.append(stem);
    r.append("-[");
    r.append(start);
    r.append(sep);
    r.append(end);
    r.append("].");
    r.append(ext);
    assert(r@ =~= span_name_of(stem@, start@, sep@, end@, ext@));
    r
}

/// The name of a scene clip: `{stem}-scene-{number:03}-[{start}{sep}{end}].mp4`.
pub open spec fn scene_clip_name_of(stem: Seq<char>, number: u64, start: Seq<char>, sep: Seq<char>, end: Seq<char>) -> Seq<char> {
    stem + "-scene-"@ + zero_padded(decimal(number as nat), 3) + "-["@ + start + sep + end + "].mp4"@
}

/// Builds the text of `scene_clip_name_of`.
pub fn scene_clip_name(stem: &str, number: u64, start: &str, sep: &str, end: &str) -> (r: String)
    ensures
        r@ == scene_clip_name_of(stem@, number, start@, sep@, end@),
{
    let mut r = String::new();
    r.append(stem);
    r.append("-scene-");
    let d = padded_decimal_string(number, 3);
    r.append(d.as_str());
    r.append("-[");
    r.append(start);
    r.append(sep);
    r.append(end);
    r.append("].mp4");
    assert(r@ =~= scene_clip_name_of(stem@, number, start@, sep@, end@));
    r
}

/// The name of a scene image: `{stem}-scene-{number:03}{suffix}-[{time}].{format}`.
pub open spec fn scene_image_name_of(stem: Seq<char>, number: u64, suffix: Seq<char>, time: Seq<char>, format: Seq<char>) -> Seq<char> {
    stem + "-scene-"@ + zero_padded(decimal(number as nat), 3) + suffix + "-["@ + time + "]."@ + format
}

/// Builds the text of `scene_image_name_of`.
pub fn scene_image_name(stem: &str, number: u64, suffix: &str, time: &str, format: &str) -> (r: String)
    ensures
        r@ == scene_image_name_of(stem@, number, suffix@, time@, format@),
{
    let mut r = String::new();
    r.append(stem);
    r.append("-scene-");
    let d = padded_decimal_string(number, 3);
    r.append(d.as_str());
    r.append(suffix);
    r.append("-[");
    r.append(time);
    r.append("].");
    r.append(format);
    assert(r@ =~= scene_image_name_of(stem@, number, suffix@, time@, format@));
    r
}

/// The name of a vertical short: `{stem}{suffix}.mp4`.
pub open spec fn short_name_of(stem: Seq<char>, suffix: Seq<char>) -> Seq<char> {
    stem + suffix + ".mp4"@
}

/// Builds the text of `short_name_of`.
pub fn short_name(stem: &str, suffix: &str) -> (r: String)
    ensures
        r@ == short_name_of(stem@, suffix@),
{
    let mut r = String::new();
    r.append(stem);
    r.append(suffix);
    r.append(".mp4");
    assert(r@ =~= short_name_of(stem@, suffix@));
    r
}

/// A relative path that ffmpeg reads as a file, not a protocol: `./{name}`.
pub open spec fn dot_slash_of(name: Seq<char>) -> Seq<char> {
    "./"@ + name
}

/// Builds the text of `dot_slash_of`.
pub fn dot_slash(name: &str) -> (r: String)
    ensures
        r@ == dot_slash_of(name@),
{
    let mut r = String::new();
    r.append("./");
    r.append(name);
    assert(r@ =~= dot_slash_of(name@));
    r
}

/// A line of an ffmpeg concat list: `file '{path}'` and a newline.
pub open spec fn concat_entry_of(path: Seq<char>) -> Seq<char> {
    "file '"@ + path + "'\n"@
}

/// Builds the text of `concat_entry_of`.
pub fn concat_entry(path: &str) -> (r: String)
    ensures
        r@ == concat_entry_of(path@),
{
    let mut r = String::new();
    r.append("file '");
    r.append(path);
    r.append("'\n");
    assert(r@ =~= concat_entry_of(path@));
    r
}

/// The ffmpeg help topic of an encoder: `encoder={name}`.
pub open spec fn encoder_query_of(name: Seq<char>) -> Seq<char> {
    "encoder="@ + name
}

/// Builds the text of `encoder_query_of`.
pub fn encoder_query(name: &str) -> (r: String)
    ensures
        r@ == encoder_query_of(name@),
{
    let mut r = String::new();
    r.append("encoder=");
    r.append(name);
    assert(r@ =~= encoder_query_of(name@));
    r
}

/// The suffix of a vertical short's name: `-short-[{start}–{end}]`, or with
/// the crop position `-x-{x}-short-[{start}–{end}]` where the position was
/// given or is not the default `50`.
pub open spec fn short_suffix_of(x_pos: Seq<char>, x_given: bool, start: Seq<char>, end: Seq<char>) -> Seq<char> {
    if x_pos != "50"@ || x_given {
        "-x-"@ + x_pos + "-short-["@ + start + "–"@ + end + "]"@
    } else {
        "-short-["@ + start + "–"@ + end + "]"@
    }
}

/// Builds the suffix of a vertical short's name.
pub fn short_suffix(x_pos: &str, x_given: bool, start: &str, end: &str) -> (r: String)
    ensures
        r@ == short_suffix_of(x_pos@, x_given, start@, end@),
{
    let default_pos = String::from_str("50");
    let given = String::from_str(x_pos);
    let mut r = String::new();
    if !(given == default_pos) || x_given {
        r.append("-x-");
        r.append(x_pos);
    }
    r.append("-short-[");
    r.append(start);
    r.append("–");
    r.append(end);
    r.append("]");
    assert(r@ =~= short_suffix_of(x_pos@, x_given, start@, end@));
    r
}

/// A remote video's title made safe for a file name: `'/'` and `':'` become
/// `'_'`.
pub open spec fn safe_title_of(title: Seq<char>) -> Seq<char> {
    crate::text::replace_char(crate::text::replace_char(title, '/', "_"@), ':', "_"@)
}

/// Makes a remote video's title safe for a file name.
pub fn safe_title(title: &str) -> (r: String)
    ensures
        r@ == safe_title_of(title@),
{
    let a = crate::text::replace(title, '/', "_");
    crate::text::replace(a.as_str(), ':', "_")
}

/// An optional part of a picture-in-picture name: `-{tag}-{value}` where the
/// option was given.
pub open spec fn option_part(tag: Seq<char>, value: Option<Seq<char>>) -> Seq<char> {
    match value {
        Some(v) => "-"@ + tag + "-"@ + v,
        None => Seq::<char>::empty(),
    }
}

/// The options of a picture-in-picture overlay as given on the command line.
pub struct PipOptions {
    pub margin: Option<String>,
    pub position: Option<String>,
    pub width: Option<String>,
    pub fade: Option<String>,
    pub border: Option<String>,
    pub color: Option<String>,
}

/// The name of a picture-in-picture clip:
/// `./{stem}-pip-{overlay_stem}-p-[{time}]` followed by `-m-`, `-x-`, `-w-`,
/// `-f-[..]`, `-k-` and `-c-` parts for the options given, and `.mp4`.
pub open spec fn pip_name_of(stem: Seq<char>, overlay_stem: Seq<char>, time: Seq<char>, o: PipOptions) -> Seq<char> {
    "./"@ + stem + "-pip-"@ + overlay_stem + "-p-["@ + time + "]"@
        + option_part("m"@, o.margin.deep_view())
        + option_part("x"@, o.position.deep_view())
        + option_part("w"@, o.width.deep_view())
        + option_part("f"@, match o.fade { Some(f) => Some("["@ + f@ + "]"@), None => None })
        + option_part("k"@, o.border.deep_view())
        + option_part("c"@, o.color.deep_view())
        + ".mp4"@
}

fn push_option_part(r: &mut String, tag: &str, value: &Option<String>)
    ensures
        final(r)@ == old(r)@ + option_part(tag@, value.deep_view()),
{
    match value {
        Some(v) => {
            r.append("-");
            r.append(tag);
            r.append("-");
            r.append(v.as_str());
        },
        None => {},
    }
    assert(final(r)@ =~= old(r)@ + option_part(tag@, value.deep_view()));
}

/// Builds the name of a picture-in-picture clip.
pub fn pip_name(stem: &str, overlay_stem: &str, time: &str, o: &PipOptions) -> (r: String)
    ensures
        r@ == pip_name_of(stem@, overlay_stem@, time@, *o),
{
    let mut r = String::new();
    r.append("./");
    r.append(stem);
    r.append("-pip-");
    r.append(overlay_stem);
    r.append("-p-[");
    r.append(time);
    r.append("]");
    push_option_part(&mut r, "m", &o.margin);
    push_option_part(&mut r, "x", &o.position);
    push_option_part(&mut r, "w", &o.width);
    let fade = match &o.fade {
        Some(f) => {
            let mut b = String::from_str("[");
            b.append(f.as_str());
            b.append("]");
            Some(b)
        },
        None => None,
    };
    push_option_part(&mut r, "f", &fade);
    push_option_part(&mut r, "k", &o.border);
    push_option_part(&mut r, "c", &o.color);
    r.append(".mp4");
    assert(r@ =~= pip_name_of(stem@, overlay_stem@, time@, *o));
    r
}

/// The label of a thumbnail sheet's name: `-tile-` and the time it was made.
pub open spec fn tile_label_of(made: Seq<char>) -> Seq<char> {
    "-tile-"@ + made
}

/// Builds the text of `tile_label_of`.
pub fn tile_label(made: &str) -> (r: String)
    ensures
        r@ == tile_label_of(made@),
{
    let mut r = String::from_str("-tile-");
    r.append(made);
    r
}

} // verus!
