//! The filter graphs that the tools hand to ffmpeg and ffplay, and the
//! choices behind them.
use vstd::prelude::*;
use crate::numfmt::{decimal, decimal_string, signed_decimal, signed_decimal_string};
use crate::text::{
    free_of,
    join_with,
    lemma_free_of_concat,
    lemma_split_of_join,
    lowercase_of,
    replace,
    replace_char,
    same_text,
    split_char,
    to_lowercase,
};

verus! {

/// The zoom-and-pan filter: a tenfold upscale (against jitter), `zoompan` with the zoom and position expressions over `frames` frames at 1280x720, and a scale back to the image height.
pub open spec fn zoompan_filter_of(zoom: Seq<char>, x: Seq<char>, y: Seq<char>, frames: u32, height: u32) -> Seq<char> {
    "scale=-2:10*ih,zoompan=z='"@ + zoom + "':x='"@ + x + "':y='"@ + y + "':d="@ + decimal(frames as nat) + ":s=1280x720,scale=-2:"@ + decimal(height as nat)
}

/// Builds the text of `zoompan_filter_of`.
pub fn zoompan_filter(zoom: &str, x: &str, y: &str, frames: u32, height: u32) -> (r: String)
    ensures
        r@ == zoompan_filter_of(zoom@, x@, y@, frames, height),
{
    let mut r = String::new();
    r.append("scale=-2:10*ih,zoompan=z='");
    r.append(zoom);
    r.append("':x='");
    r.append(x);
    r.append("':y='");
    r.append(y);
    r.append("':d=");
    let t = decimal_string(frames as u64);
    r.append(t.as_str());
    r.append(":s=1280x720,scale=-2:");
    let t = decimal_string(height as u64);
    r.append(t.as_str());
    assert(r@ =~= zoompan_filter_of(zoom@, x@, y@, frames, height));
    r
}

/// The vertical 9:16 crop at a horizontal offset, scaled to 1080x1920.
pub open spec fn short_crop_filter_of(offset: Seq<char>) -> Seq<char> {
    "crop=ih*9/16:ih:"@ + offset + ":0,scale=1080:1920"@
}

/// Builds the text of `short_crop_filter_of`.
pub fn short_crop_filter(offset: &str) -> (r: String)
    ensures
        r@ == short_crop_filter_of(offset@),
{
    let mut r = String::new();
    r.append("crop=ih*9/16:ih:");
    r.append(offset);
    r.append(":0,scale=1080:1920");
    assert(r@ =~= short_crop_filter_of(offset@));
    r
}

/// Two videos scaled to one height and stacked side by side, ending with the shorter.
pub open spec fn hstack_filter_of(height: u32) -> Seq<char> {
    "[0:v]scale=-1:"@ + decimal(height as nat) + ":flags=lanczos[l]; [1:v]scale=-1:"@ + decimal(height as nat) + ":flags=lanczos[r]; [l][r]hstack=inputs=2:shortest=1[v]"@
}

/// Builds the text of `hstack_filter_of`.
pub fn hstack_filter(height: u32) -> (r: String)
    ensures
        r@ == hstack_filter_of(height),
{
    let mut r = String::new();
    r.append("[0:v]scale=-1:");
    let t = decimal_string(height as u64);
    r.append(t.as_str());
    r.append(":flags=lanczos[l]; [1:v]scale=-1:");
    let t = decimal_string(height as u64);
    r.append(t.as_str());
    r.append(":flags=lanczos[r]; [l][r]hstack=inputs=2:shortest=1[v]");
    assert(r@ =~= hstack_filter_of(height));
    r
}

/// The silent audio source of a channel layout and sample rate.
pub open spec fn silence_source_of(layout: Seq<char>, rate: Seq<char>) -> Seq<char> {
    "anullsrc=channel_layout="@ + layout + ":sample_rate="@ + rate
}

/// Builds the text of `silence_source_of`.
pub fn silence_source(layout: &str, rate: &str) -> (r: String)
    ensures
        r@ == silence_source_of(layout@, rate@),
{
    let mut r = String::new();
    r.append("anullsrc=channel_layout=");
    r.append(layout);
    r.append(":sample_rate=");
    r.append(rate);
    assert(r@ =~= silence_source_of(layout@, rate@));
    r
}

/// The loudness meter graph: the (escaped) file read by `amovie` into `ebur128`.
pub open spec fn ebu_filter_of(escaped_path: Seq<char>, target: Seq<char>) -> Seq<char> {
    "amovie='"@ + escaped_path + "',ebur128=video=1:meter=18:dualmono=true:target="@ + target + "[out0][out1]"@
}

/// Builds the text of `ebu_filter_of`.
pub fn ebu_filter(escaped_path: &str, target: &str) -> (r: String)
    ensures
        r@ == ebu_filter_of(escaped_path@, target@),
{
    let mut r = String::new();
    r.append("amovie='");
    r.append(escaped_path);
    r.append("',ebur128=video=1:meter=18:dualmono=true:target=");
    r.append(target);
    r.append("[out0][out1]");
    assert(r@ =~= ebu_filter_of(escaped_path@, target@));
    r
}

/// The logo remover over a box, with the box drawn where `show` is 1.
pub open spec fn delogo_filter_of(x: u32, y: u32, w: u32, h: u32, show: u32) -> Seq<char> {
    "delogo=x="@ + decimal(x as nat) + ":y="@ + decimal(y as nat) + ":w="@ + decimal(w as nat) + ":h="@ + decimal(h as nat) + ":show="@ + decimal(show as nat)
}

/// Builds the text of `delogo_filter_of`.
pub fn delogo_filter(x: u32, y: u32, w: u32, h: u32, show: u32) -> (r: String)
    ensures
        r@ == delogo_filter_of(x, y, w, h, show),
{
    let mut r = String::new();
    r.append("delogo=x=");
    let t = decimal_string(x as u64);
    r.append(t.as_str());
    r.append(":y=");
    let t = decimal_string(y as u64);
    r.append(t.as_str());
    r.append(":w=");
    let t = decimal_string(w as u64);
    r.append(t.as_str());
    r.append(":h=");
    let t = decimal_string(h as u64);
    r.append(t.as_str());
    r.append(":show=");
    let t = decimal_string(show as u64);
    r.append(t.as_str());
    assert(r@ =~= delogo_filter_of(x, y, w, h, show));
    r
}

/// Frame rate and width (aspect kept) for an animated WebP.
pub open spec fn webp_filter_of(fps: i32, width: i32) -> Seq<char> {
    "fps="@ + signed_decimal(fps as int) + ",scale="@ + signed_decimal(width as int) + ":-1:flags=lanczos"@
}

/// Builds the text of `webp_filter_of`.
pub fn webp_filter(fps: i32, width: i32) -> (r: String)
    ensures
        r@ == webp_filter_of(fps, width),
{
    let mut r = String::new();
    r.append("fps=");
    let t = signed_decimal_string(fps as i64);
    r.append(t.as_str());
    r.append(",scale=");
    let t = signed_decimal_string(width as i64);
    r.append(t.as_str());
    r.append(":-1:flags=lanczos");
    assert(r@ =~= webp_filter_of(fps, width));
    r
}

/// Frame rate and width for a GIF, with a palette generated from and applied to the clip.
pub open spec fn gif_filter_of(fps: i32, width: i32) -> Seq<char> {
    "fps="@ + signed_decimal(fps as int) + ",scale="@ + signed_decimal(width as int) + ":-1:flags=lanczos,split[s0][s1];[s0]palettegen[p];[s1][p]paletteuse"@
}

/// Builds the text of `gif_filter_of`.
pub fn gif_filter(fps: i32, width: i32) -> (r: String)
    ensures
        r@ == gif_filter_of(fps, width),
{
    let mut r = String::new();
    r.append("fps=");
    let t = signed_decimal_string(fps as i64);
    r.append(t.as_str());
    r.append(",scale=");
    let t = signed_decimal_string(width as i64);
    r.append(t.as_str());
    r.append(":-1:flags=lanczos,split[s0][s1];[s0]palettegen[p];[s1][p]paletteuse");
    assert(r@ =~= gif_filter_of(fps, width));
    r
}

/// A still picture of the audio waveform at a size and colour.
pub open spec fn waveform_filter_of(width: i32, height: i32, color: Seq<char>) -> Seq<char> {
    "showwavespic=s="@ + signed_decimal(width as int) + "x"@ + signed_decimal(height as int) + ":colors="@ + color
}

/// Builds the text of `waveform_filter_of`.
pub fn waveform_filter(width: i32, height: i32, color: &str) -> (r: String)
    ensures
        r@ == waveform_filter_of(width, height, color@),
{
    let mut r = String::new();
    r.append("showwavespic=s=");
    let t = signed_decimal_string(width as i64);
    r.append(t.as_str());
    r.append("x");
    let t = signed_decimal_string(height as i64);
    r.append(t.as_str());
    r.append(":colors=");
    r.append(color);
    assert(r@ =~= waveform_filter_of(width, height, color@));
    r
}

/// The video over a blurred, 1920x1080 cropped copy of itself, centred.
pub open spec fn blur_fill_filter_of(blur: u32) -> Seq<char> {
    "[0:v]split=2[main][bg]; [bg]scale=1920:1080:force_original_aspect_ratio=increase,crop=1920:1080,boxblur="@ + decimal(blur as nat) + ":10[blurred]; [main]scale=-1:1080[foreground]; [blurred][foreground]overlay=(W-w)/2:(H-h)/2"@
}

/// Builds the text of `blur_fill_filter_of`.
pub fn blur_fill_filter(blur: u32) -> (r: String)
    ensures
        r@ == blur_fill_filter_of(blur),
{
    let mut r = String::new();
    r.append("[0:v]split=2[main][bg]; [bg]scale=1920:1080:force_original_aspect_ratio=increase,crop=1920:1080,boxblur=");
    let t = decimal_string(blur as u64);
    r.append(t.as_str());
    r.append(":10[blurred]; [main]scale=-1:1080[foreground]; [blurred][foreground]overlay=(W-w)/2:(H-h)/2");
    assert(r@ =~= blur_fill_filter_of(blur));
    r
}

/// The time stamp drawn on each thumbnail, centred near its bottom edge.
pub open spec fn drawtext_part_of(fontcolor: Seq<char>, boxcolor: Seq<char>) -> Seq<char> {
    ",drawtext=text='%{pts\\:hms}':x=(w-tw)/2:y=h-th-10:fontsize=h/10:fontcolor="@ + fontcolor + ":box=1:boxcolor="@ + boxcolor + "@0.5"@
}

/// Builds the text of `drawtext_part_of`.
pub fn drawtext_part(fontcolor: &str, boxcolor: &str) -> (r: String)
    ensures
        r@ == drawtext_part_of(fontcolor@, boxcolor@),
{
    let mut r = String::new();
    r.append(",drawtext=text='%{pts\\:hms}':x=(w-tw)/2:y=h-th-10:fontsize=h/10:fontcolor=");
    r.append(fontcolor);
    r.append(":box=1:boxcolor=");
    r.append(boxcolor);
    r.append("@0.5");
    assert(r@ =~= drawtext_part_of(fontcolor@, boxcolor@));
    r
}

/// The tiling of the thumbnails into one picture.
pub open spec fn tile_part_of(layout: Seq<char>, padding: Seq<char>, margin: Seq<char>, color: Seq<char>) -> Seq<char> {
    ",tile="@ + layout + ":padding="@ + padding + ":margin="@ + margin + ":color="@ + color
}

/// Builds the text of `tile_part_of`.
pub fn tile_part(layout: &str, padding: &str, margin: &str, color: &str) -> (r: String)
    ensures
        r@ == tile_part_of(layout@, padding@, margin@, color@),
{
    let mut r = String::new();
    r.append(",tile=");
    r.append(layout);
    r.append(":padding=");
    r.append(padding);
    r.append(":margin=");
    r.append(margin);
    r.append(":color=");
    r.append(color);
    assert(r@ =~= tile_part_of(layout@, padding@, margin@, color@));
    r
}

/// The colour lookup, from the left half of a grading image, applied in a preview.
pub open spec fn lut_preview_filter_of(lut: Seq<char>) -> Seq<char> {
    "movie='"@ + lut + "',crop=iw/2:ih:0:0[lut];[in][lut]haldclut"@
}

/// Builds the text of `lut_preview_filter_of`.
pub fn lut_preview_filter(lut: &str) -> (r: String)
    ensures
        r@ == lut_preview_filter_of(lut@),
{
    let mut r = String::new();
    r.append("movie='");
    r.append(lut);
    r.append("',crop=iw/2:ih:0:0[lut];[in][lut]haldclut");
    assert(r@ =~= lut_preview_filter_of(lut@));
    r
}

/// The colour lookup, from the left half of a grading image, applied to the first input.
pub open spec fn lut_apply_filter_of(lut: Seq<char>) -> Seq<char> {
    "movie='"@ + lut + "',crop=iw/2:ih:0:0[lut];[0:v][lut]haldclut"@
}

/// Builds the text of `lut_apply_filter_of`.
pub fn lut_apply_filter(lut: &str) -> (r: String)
    ensures
        r@ == lut_apply_filter_of(lut@),
{
    let mut r = String::new();
    r.append("movie='");
    r.append(lut);
    r.append("',crop=iw/2:ih:0:0[lut];[0:v][lut]haldclut");
    assert(r@ =~= lut_apply_filter_of(lut@));
    r
}

/// Scene change detection that prints each detected frame's metadata.
pub open spec fn scene_select_filter_of(threshold: Seq<char>) -> Seq<char> {
    "select='gt(scene,"@ + threshold + ")',metadata=print:file=-"@
}

/// Builds the text of `scene_select_filter_of`.
pub fn scene_select_filter(threshold: &str) -> (r: String)
    ensures
        r@ == scene_select_filter_of(threshold@),
{
    let mut r = String::new();
    r.append("select='gt(scene,");
    r.append(threshold);
    r.append(")',metadata=print:file=-");
    assert(r@ =~= scene_select_filter_of(threshold@));
    r
}

/// Scene change detection reported through `showinfo`.
pub open spec fn scene_showinfo_filter_of(threshold: Seq<char>) -> Seq<char> {
    "select='gt(scene,"@ + threshold + ")',showinfo"@
}

/// Builds the text of `scene_showinfo_filter_of`.
pub fn scene_showinfo_filter(threshold: &str) -> (r: String)
    ensures
        r@ == scene_showinfo_filter_of(threshold@),
{
    let mut r = String::new();
    r.append("select='gt(scene,");
    r.append(threshold);
    r.append(")',showinfo");
    assert(r@ =~= scene_showinfo_filter_of(threshold@));
    r
}

/// The first loudness normalisation pass, which measures and prints JSON.
pub open spec fn loudnorm_analysis_filter_of(lufs: Seq<char>, tp: Seq<char>) -> Seq<char> {
    "loudnorm=I="@ + lufs + ":TP="@ + tp + ":LRA=11:print_format=json"@
}

/// Builds the text of `loudnorm_analysis_filter_of`.
pub fn loudnorm_analysis_filter(lufs: &str, tp: &str) -> (r: String)
    ensures
        r@ == loudnorm_analysis_filter_of(lufs@, tp@),
{
    let mut r = String::new();
    r.append("loudnorm=I=");
    r.append(lufs);
    r.append(":TP=");
    r.append(tp);
    r.append(":LRA=11:print_format=json");
    assert(r@ =~= loudnorm_analysis_filter_of(lufs@, tp@));
    r
}

/// The second loudness normalisation pass, fed with the measured values.
pub open spec fn loudnorm_apply_filter_of(lufs: Seq<char>, tp: Seq<char>, measured_i: Seq<char>, measured_tp: Seq<char>, measured_lra: Seq<char>, measured_thresh: Seq<char>, offset: Seq<char>) -> Seq<char> {
    "loudnorm=I="@ + lufs + ":TP="@ + tp + ":LRA=11:measured_i="@ + measured_i + ":measured_tp="@ + measured_tp + ":measured_lra="@ + measured_lra + ":measured_thresh="@ + measured_thresh + ":offset="@ + offset + ":linear=true"@
}

/// Builds the text of `loudnorm_apply_filter_of`.
pub fn loudnorm_apply_filter(lufs: &str, tp: &str, measured_i: &str, measured_tp: &str, measured_lra: &str, measured_thresh: &str, offset: &str) -> (r: String)
    ensures
        r@ == loudnorm_apply_filter_of(lufs@, tp@, measured_i@, measured_tp@, measured_lra@, measured_thresh@, offset@),
{
    let mut r = String::new();
    r.append("loudnorm=I=");
    r.append(lufs);
    r.append(":TP=");
    r.append(tp);
    r.append(":LRA=11:measured_i=");
    r.append(measured_i);
    r.append(":measured_tp=");
    r.append(measured_tp);
    r.append(":measured_lra=");
    r.append(measured_lra);
    r.append(":measured_thresh=");
    r.append(measured_thresh);
    r.append(":offset=");
    r.append(offset);
    r.append(":linear=true");
    assert(r@ =~= loudnorm_apply_filter_of(lufs@, tp@, measured_i@, measured_tp@, measured_lra@, measured_thresh@, offset@));
    r
}

/// A picture-in-picture coordinate: `{base}{margin}{sign}{offset}`.
pub open spec fn pip_coordinate_of(base: Seq<char>, margin: i32, sign: Seq<char>, offset: i32) -> Seq<char> {
    base + signed_decimal(margin as int) + sign + signed_decimal(offset as int)
}

/// Builds the text of `pip_coordinate_of`.
pub fn pip_coordinate(base: &str, margin: i32, sign: &str, offset: i32) -> (r: String)
    ensures
        r@ == pip_coordinate_of(base@, margin, sign@, offset),
{
    let mut r = String::new();
    r.append(base);
    let t = signed_decimal_string(margin as i64);
    r.append(t.as_str());
    r.append(sign);
    let t = signed_decimal_string(offset as i64);
    r.append(t.as_str());
    assert(r@ =~= pip_coordinate_of(base@, margin, sign@, offset));
    r
}

/// A scale filter `scale={w}:{h}` of two sizes given as text.
pub open spec fn scale_text_of(w: Seq<char>, h: Seq<char>) -> Seq<char> {
    "scale="@ + w + ":"@ + h
}

/// Builds the text of `scale_text_of`.
pub fn scale_text(w: &str, h: &str) -> (r: String)
    ensures
        r@ == scale_text_of(w@, h@),
{
    let mut r = String::new();
    r.append("scale=");
    r.append(w);
    r.append(":");
    r.append(h);
    assert(r@ =~= scale_text_of(w@, h@));
    r
}

/// The scope that the scope viewer shows, chosen by its flags.
pub enum Scope {
    Histogram,
    RgbOverlay,
    RgbParade,
    OverlayAndParade,
    Waveform,
    Vectorscope,
}

/// The first flag set, in the order histogram, RGB overlay, RGB parade, both,
/// waveform, vectorscope, chooses the scope; the histogram where none is set.
pub open spec fn scope_choice_of(
    histogram: bool,
    overlay: bool,
    parade: bool,
    both: bool,
    waveform: bool,
    vectorscope: bool,
) -> Scope {
    if histogram {
        Scope::Histogram
    } else if overlay {
        Scope::RgbOverlay
    } else if parade {
        Scope::RgbParade
    } else if both {
        Scope::OverlayAndParade
    } else if waveform {
        Scope::Waveform
    } else if vectorscope {
        Scope::Vectorscope
    } else {
        Scope::Histogram
    }
}

/// Chooses the scope from the viewer's flags.
pub fn scope_choice(
    histogram: bool,
    overlay: bool,
    parade: bool,
    both: bool,
    waveform: bool,
    vectorscope: bool,
) -> (r: Scope)
    ensures
        r == scope_choice_of(histogram, overlay, parade, both, waveform, vectorscope),
{
    if histogram {
        Scope::Histogram
    } else if overlay {
        Scope::RgbOverlay
    } else if parade {
        Scope::RgbParade
    } else if both {
        Scope::OverlayAndParade
    } else if waveform {
        Scope::Waveform
    } else if vectorscope {
        Scope::Vectorscope
    } else {
        Scope::Histogram
    }
}

/// The filter graph that shows the video with a scope stacked below it, the
/// scope scaled to the video's width and 256 pixels high.
pub open spec fn scope_filter_of(scope: Scope) -> Seq<char> {
    match scope {
        Scope::Histogram => "split=2[v1][v2];[v2]histogram=display_mode=parade[h];[h][v1]scale2ref=iw:256[scope][main];[main][scope]vstack"@,
        Scope::RgbOverlay => "split=2[v1][v2];[v2]format=rgb24,extractplanes=r+g+b[r][g][b];[r]waveform=d=0:g=1[rw];[g]waveform=d=0:g=0[gw];[b]waveform=d=0:g=0[bw];[rw]lutrgb=g=0:b=0[rc];[gw]lutrgb=r=0:b=0[gc];[bw]lutrgb=r=0:g=0[bc];[rc][gc]blend=all_mode=addition[rg];[rg][bc]blend=all_mode=addition[ov];[ov][v1]scale2ref=iw:256[scope][main];[main][scope]vstack"@,
        Scope::RgbParade => "split=2[v1][v2];[v2]format=rgb24,waveform=m=1:d=0:g=1:c=7[p];[p][v1]scale2ref=iw:256[scope][main];[main][scope]vstack"@,
        Scope::OverlayAndParade => "split=2[v1][v2];[v2]split=2[v_p][v_o];[v_p]format=rgb24,waveform=m=1:d=0:g=1:c=7[p_raw];[v_o]format=rgb24,extractplanes=r+g+b[r][g][b];[r]waveform=d=0:g=1[rw];[g]waveform=d=0:g=0[gw];[b]waveform=d=0:g=0[bw];[rw]lutrgb=g=0:b=0[rc];[gw]lutrgb=r=0:b=0[gc];[bw]lutrgb=r=0:g=0[bc];[rc][gc]blend=all_mode=addition[rg];[rg][bc]blend=all_mode=addition[o_raw];[p_raw][v1]scale2ref=iw:256[p][v_ref1];[o_raw][v_ref1]scale2ref=iw:256[o][main];[main][p]vstack[top];[top][o]vstack"@,
        Scope::Waveform => "split=2[v1][v2];[v2]format=gray,waveform=d=0:g=1[w];[w][v1]scale2ref=iw:256[scope][main];[main][scope]vstack"@,
        Scope::Vectorscope => "split=2[v1][v2];[v2]vectorscope=m=color:i=1.0[vsc];[vsc][v1]scale2ref=iw:256[scope][main];[main][scope]vstack"@,
    }
}

/// Builds the filter graph of a scope.
pub fn scope_filter(scope: Scope) -> (r: String)
    ensures
        r@ == scope_filter_of(scope),
{
    match scope {
        Scope::Histogram => String::from_str("split=2[v1][v2];[v2]histogram=display_mode=parade[h];[h][v1]scale2ref=iw:256[scope][main];[main][scope]vstack"),
        Scope::RgbOverlay => String::from_str("split=2[v1][v2];[v2]format=rgb24,extractplanes=r+g+b[r][g][b];[r]waveform=d=0:g=1[rw];[g]waveform=d=0:g=0[gw];[b]waveform=d=0:g=0[bw];[rw]lutrgb=g=0:b=0[rc];[gw]lutrgb=r=0:b=0[gc];[bw]lutrgb=r=0:g=0[bc];[rc][gc]blend=all_mode=addition[rg];[rg][bc]blend=all_mode=addition[ov];[ov][v1]scale2ref=iw:256[scope][main];[main][scope]vstack"),
        Scope::RgbParade => String::from_str("split=2[v1][v2];[v2]format=rgb24,waveform=m=1:d=0:g=1:c=7[p];[p][v1]scale2ref=iw:256[scope][main];[main][scope]vstack"),
        Scope::OverlayAndParade => String::from_str("split=2[v1][v2];[v2]split=2[v_p][v_o];[v_p]format=rgb24,waveform=m=1:d=0:g=1:c=7[p_raw];[v_o]format=rgb24,extractplanes=r+g+b[r][g][b];[r]waveform=d=0:g=1[rw];[g]waveform=d=0:g=0[gw];[b]waveform=d=0:g=0[bw];[rw]lutrgb=g=0:b=0[rc];[gw]lutrgb=r=0:b=0[gc];[bw]lutrgb=r=0:g=0[bc];[rc][gc]blend=all_mode=addition[rg];[rg][bc]blend=all_mode=addition[o_raw];[p_raw][v1]scale2ref=iw:256[p][v_ref1];[o_raw][v_ref1]scale2ref=iw:256[o][main];[main][p]vstack[top];[top][o]vstack"),
        Scope::Waveform => String::from_str("split=2[v1][v2];[v2]format=gray,waveform=d=0:g=1[w];[w][v1]scale2ref=iw:256[scope][main];[main][scope]vstack"),
        Scope::Vectorscope => String::from_str("split=2[v1][v2];[v2]vectorscope=m=color:i=1.0[vsc];[vsc][v1]scale2ref=iw:256[scope][main];[main][scope]vstack"),
    }
}

/// The zoom expression: zoom in up to 1.5x, or (any other direction) zoom out
/// from 1.5x.
pub open spec fn zoom_expression_of(zoom: Seq<char>) -> Seq<char> {
    if zoom == "in"@ {
        "min(zoom+0.0015,1.5)"@
    } else {
        "if(lte(zoom,1.0),1.5,max(1.001,zoom-0.0015))"@
    }
}

/// Builds the zoom expression for a direction.
pub fn zoom_expression(zoom: &str) -> (r: String)
    ensures
        r@ == zoom_expression_of(zoom@),
{
    if same_text(zoom, "in") {
        String::from_str("min(zoom+0.0015,1.5)")
    } else {
        String::from_str("if(lte(zoom,1.0),1.5,max(1.001,zoom-0.0015))")
    }
}

/// The `(x, y)` expressions that keep the zoom anchored at a position: a
/// corner (`tl`, `tr`, `bl`, `br`), an edge's centre (`tc`, `bc`) or the
/// centre (`c`, and anything else).
pub open spec fn zoom_position_of(pos: Seq<char>) -> (Seq<char>, Seq<char>) {
    if pos == "tl"@ {
        ("0"@, "0"@)
    } else if pos == "tc"@ {
        ("iw/2-(iw/zoom/2)"@, "0"@)
    } else if pos == "tr"@ {
        ("iw-iw/zoom"@, "0"@)
    } else if pos == "bl"@ {
        ("0"@, "ih-ih/zoom"@)
    } else if pos == "bc"@ {
        ("iw/2-(iw/zoom/2)"@, "ih-ih/zoom"@)
    } else if pos == "br"@ {
        ("iw-iw/zoom"@, "ih-ih/zoom"@)
    } else {
        ("iw/2-(iw/zoom/2)"@, "ih/2-(ih/zoom/2)"@)
    }
}

/// Builds the position expressions for a zoom anchor.
pub fn zoom_position(pos: &str) -> (r: (String, String))
    ensures
        (r.0@, r.1@) == zoom_position_of(pos@),
{
    if same_text(pos, "tl") {
        (String::from_str("0"), String::from_str("0"))
    } else if same_text(pos, "tc") {
        (String::from_str("iw/2-(iw/zoom/2)"), String::from_str("0"))
    } else if same_text(pos, "tr") {
        (String::from_str("iw-iw/zoom"), String::from_str("0"))
    } else if same_text(pos, "bl") {
        (String::from_str("0"), String::from_str("ih-ih/zoom"))
    } else if same_text(pos, "bc") {
        (String::from_str("iw/2-(iw/zoom/2)"), String::from_str("ih-ih/zoom"))
    } else if same_text(pos, "br") {
        (String::from_str("iw-iw/zoom"), String::from_str("ih-ih/zoom"))
    } else {
        (String::from_str("iw/2-(iw/zoom/2)"), String::from_str("ih/2-(ih/zoom/2)"))
    }
}

/// The word for a pan direction letter (`l`, `r`, `u`, `d`); other text is
/// kept as it is.
pub open spec fn pan_direction_of(pos: Seq<char>) -> Seq<char> {
    if pos == "l"@ {
        "left"@
    } else if pos == "r"@ {
        "right"@
    } else if pos == "u"@ {
        "up"@
    } else if pos == "d"@ {
        "down"@
    } else {
        pos
    }
}

/// Names a pan direction.
pub fn pan_direction(pos: &str) -> (r: String)
    ensures
        r@ == pan_direction_of(pos@),
{
    if same_text(pos, "l") {
        String::from_str("left")
    } else if same_text(pos, "r") {
        String::from_str("right")
    } else if same_text(pos, "u") {
        String::from_str("up")
    } else if same_text(pos, "d") {
        String::from_str("down")
    } else {
        String::from_str(pos)
    }
}

/// The horizontal offset of the 9:16 crop for a position in percent (0, 25,
/// 50, 75, 100); the centre for anything else.
pub open spec fn short_crop_offset_of(x_pos: Seq<char>) -> Seq<char> {
    if x_pos == "0"@ {
        "(in_w-9/16*in_h)*0.0"@
    } else if x_pos == "25"@ {
        "(in_w-9/16*in_h)*0.25"@
    } else if x_pos == "75"@ {
        "(in_w-9/16*in_h)*0.75"@
    } else if x_pos == "100"@ {
        "(in_w-9/16*in_h)*1.0"@
    } else {
        "(in_w-9/16*in_h)*0.5"@
    }
}

/// Builds the crop offset for a position in percent.
pub fn short_crop_offset(x_pos: &str) -> (r: String)
    ensures
        r@ == short_crop_offset_of(x_pos@),
{
    if same_text(x_pos, "0") {
        String::from_str("(in_w-9/16*in_h)*0.0")
    } else if same_text(x_pos, "25") {
        String::from_str("(in_w-9/16*in_h)*0.25")
    } else if same_text(x_pos, "75") {
        String::from_str("(in_w-9/16*in_h)*0.75")
    } else if same_text(x_pos, "100") {
        String::from_str("(in_w-9/16*in_h)*1.0")
    } else {
        String::from_str("(in_w-9/16*in_h)*0.5")
    }
}

/// A number given as text, or `default` where the text is not an `i32`.
pub open spec fn number_or_of(text: Seq<char>, default: i32) -> i32 {
    match crate::numfmt::parse_i32_spec(text) {
        Some(v) => v,
        None => default,
    }
}

/// Reads a number, falling back to `default`.
pub fn number_or(text: &str, default: i32) -> (r: i32)
    ensures
        r == number_or_of(text@, default),
{
    match crate::numfmt::parse_i32(text) {
        Some(v) => v,
        None => default,
    }
}

/// Half the border (rounded toward zero, as integer division does), by which
/// the picture-in-picture box is shifted so that its visible border starts at
/// the margin.
pub open spec fn pip_offset_of(border: i32) -> int {
    if border >= 0 {
        border / 2
    } else {
        -((-border) / 2)
    }
}

/// Computes half the border.
pub fn pip_offset(border: i32) -> (r: i32)
    ensures
        r as int == pip_offset_of(border),
{
    if border >= 0 {
        border / 2
    } else {
        let m: i64 = -(border as i64);
        (-(m / 2)) as i32
    }
}

/// The x coordinate of the picture-in-picture box: from the left edge for the
/// left corners (`tl`, `bl`), else from the right edge.
pub open spec fn pip_x_of(pos: Seq<char>, margin: i32, offset: i32) -> Seq<char> {
    if pos == "tl"@ || pos == "bl"@ {
        pip_coordinate_of(""@, margin, "-"@, offset)
    } else {
        pip_coordinate_of("main_w-overlay_w-"@, margin, "+"@, offset)
    }
}

/// The y coordinate of the picture-in-picture box: from the top edge for the
/// top corners (`tl`, `tr`), else from the bottom edge.
pub open spec fn pip_y_of(pos: Seq<char>, margin: i32, offset: i32) -> Seq<char> {
    if pos == "tl"@ || pos == "tr"@ {
        pip_coordinate_of(""@, margin, "-"@, offset)
    } else {
        pip_coordinate_of("main_h-overlay_h-"@, margin, "+"@, offset)
    }
}

/// Builds the x coordinate of the picture-in-picture box.
pub fn pip_x(pos: &str, margin: i32, offset: i32) -> (r: String)
    ensures
        r@ == pip_x_of(pos@, margin, offset),
{
    if same_text(pos, "tl") || same_text(pos, "bl") {
        pip_coordinate("", margin, "-", offset)
    } else {
        pip_coordinate("main_w-overlay_w-", margin, "+", offset)
    }
}

/// Builds the y coordinate of the picture-in-picture box.
pub fn pip_y(pos: &str, margin: i32, offset: i32) -> (r: String)
    ensures
        r@ == pip_y_of(pos@, margin, offset),
{
    if same_text(pos, "tl") || same_text(pos, "tr") {
        pip_coordinate("", margin, "-", offset)
    } else {
        pip_coordinate("main_h-overlay_h-", margin, "+", offset)
    }
}

/// The common height of two stacked videos: the taller one's, at most 1080.
pub open spec fn stack_height_of(h1: u32, h2: u32) -> u32 {
    let m = if h1 >= h2 {
        h1
    } else {
        h2
    };
    if m > 1080 {
        1080
    } else {
        m
    }
}

/// Computes the common height of two stacked videos.
pub fn stack_height(h1: u32, h2: u32) -> (r: u32)
    ensures
        r == stack_height_of(h1, h2),
{
    let m = if h1 >= h2 {
        h1
    } else {
        h2
    };
    if m > 1080 {
        1080
    } else {
        m
    }
}

/// The audio stream of the stacked video: the right input's where the choice
/// is `r` in any case, else the left input's.
pub open spec fn stack_audio_map_of(choice: Seq<char>) -> Seq<char> {
    if lowercase_of(choice) == "r"@ {
        "1:a"@
    } else {
        "0:a"@
    }
}

/// Chooses the audio stream of the stacked video.
pub fn stack_audio_map(choice: &str) -> (r: String)
    ensures
        r@ == stack_audio_map_of(choice@),
{
    let c = to_lowercase(choice);
    if same_text(c.as_str(), "r") {
        String::from_str("1:a")
    } else {
        String::from_str("0:a")
    }
}

/// The subtitle codec for a container: `mov_text` in MP4, M4V and QuickTime,
/// SubRip in anything else.
pub open spec fn subtitle_codec_of(ext: Seq<char>) -> Seq<char> {
    if ext == "mp4"@ || ext == "m4v"@ || ext == "mov"@ {
        "mov_text"@
    } else {
        "srt"@
    }
}

/// Chooses the subtitle codec for a container.
pub fn subtitle_codec(ext: &str) -> (r: String)
    ensures
        r@ == subtitle_codec_of(ext@),
{
    if same_text(ext, "mp4") || same_text(ext, "m4v") || same_text(ext, "mov") {
        String::from_str("mov_text")
    } else {
        String::from_str("srt")
    }
}

/// The channel layout of added silence: stereo where asked, else mono.
pub open spec fn silence_layout_of(channels: Seq<char>) -> Seq<char> {
    if channels == "stereo"@ {
        "stereo"@
    } else {
        "mono"@
    }
}

/// Chooses the channel layout of added silence.
pub fn silence_layout(channels: &str) -> (r: String)
    ensures
        r@ == silence_layout_of(channels@),
{
    if same_text(channels, "stereo") {
        String::from_str("stereo")
    } else {
        String::from_str("mono")
    }
}

/// The audio codec argument: AAC audio is copied, anything else is encoded to
/// AAC.
pub open spec fn audio_stream_codec_of(codec: Seq<char>) -> Seq<char> {
    if codec == "aac"@ {
        "copy"@
    } else {
        "aac"@
    }
}

/// Chooses between copying and encoding the audio.
pub fn audio_stream_codec(codec: &str) -> (r: String)
    ensures
        r@ == audio_stream_codec_of(codec@),
{
    if same_text(codec, "aac") {
        String::from_str("copy")
    } else {
        String::from_str("aac")
    }
}

/// A path escaped for `amovie`'s option parser: backslashes doubled, then
/// colons escaped.
pub open spec fn ebu_escape_of(path: Seq<char>) -> Seq<char> {
    replace_char(replace_char(path, '\\', "\\\\"@), ':', "\\:"@)
}

/// Escapes a path for `amovie`.
pub fn ebu_escape(path: &str) -> (r: String)
    ensures
        r@ == ebu_escape_of(path@),
{
    let a = replace(path, '\\', "\\\\");
    replace(a.as_str(), ':', "\\:")
}

/// Whether the logo box keeps the one pixel of room on its right and lower
/// side that `delogo` needs.
pub open spec fn delogo_fits_of(x: u32, y: u32, w: u32, h: u32, video_w: u32, video_h: u32) -> bool {
    !(x + w >= video_w || y + h >= video_h)
}

/// Checks the logo box against the frame size.
pub fn delogo_fits(x: u32, y: u32, w: u32, h: u32, video_w: u32, video_h: u32) -> (b: bool)
    requires
        x + w <= u32::MAX,
        y + h <= u32::MAX,
    ensures
        b == delogo_fits_of(x, y, w, h, video_w, video_h),
{
    !(x + w >= video_w || y + h >= video_h)
}

/// The thumbnail width: the input width where `on` is given, else the text
/// given.
pub open spec fn tile_width_of(width: Seq<char>) -> Seq<char> {
    if width == "on"@ {
        "iw"@
    } else {
        width
    }
}

/// Chooses the thumbnail width.
pub fn tile_width(width: &str) -> (r: String)
    ensures
        r@ == tile_width_of(width@),
{
    if same_text(width, "on") {
        String::from_str("iw")
    } else {
        String::from_str(width)
    }
}

/// Whether an `on`/`off` switch is on (in any case).
pub open spec fn switch_on_of(value: Seq<char>) -> bool {
    lowercase_of(value) == "on"@
}

/// Reads an `on`/`off` switch.
pub fn switch_on(value: &str) -> (b: bool)
    ensures
        b == switch_on_of(value@),
{
    let v = to_lowercase(value);
    same_text(v.as_str(), "on")
}

/// The scale filter of an extracted frame: both sizes, or one with the other
/// kept even (`-2`), or none.
pub open spec fn frame_scale_of(width: Option<i32>, height: Option<i32>) -> Seq<char> {
    match (width, height) {
        (Some(w), Some(h)) => scale_text_of(signed_decimal(w as int), signed_decimal(h as int)),
        (Some(w), None) => scale_text_of(signed_decimal(w as int), "-2"@),
        (None, Some(h)) => scale_text_of("-2"@, signed_decimal(h as int)),
        (None, None) => Seq::<char>::empty(),
    }
}

/// Builds the scale filter of an extracted frame (empty for none).
pub fn frame_scale(width: Option<i32>, height: Option<i32>) -> (r: String)
    ensures
        r@ == frame_scale_of(width, height),
{
    match (width, height) {
        (Some(w), Some(h)) => {
            let a = signed_decimal_string(w as i64);
            let b = signed_decimal_string(h as i64);
            scale_text(a.as_str(), b.as_str())
        },
        (Some(w), None) => {
            let a = signed_decimal_string(w as i64);
            scale_text(a.as_str(), "-2")
        },
        (None, Some(h)) => {
            let b = signed_decimal_string(h as i64);
            scale_text("-2", b.as_str())
        },
        (None, None) => String::new(),
    }
}

/// The scale filter of a scene image (the other size following the aspect,
/// `-1`) and the name suffix that records the sizes asked for.
pub open spec fn scene_image_scale_of(width: Option<i32>, height: Option<i32>) -> (
    Option<Seq<char>>,
    Seq<char>,
) {
    match (width, height) {
        (Some(w), Some(h)) => (
            Some(scale_text_of(signed_decimal(w as int), signed_decimal(h as int))),
            "-x"@ + signed_decimal(w as int) + "-y"@ + signed_decimal(h as int),
        ),
        (Some(w), None) => (
            Some(scale_text_of(signed_decimal(w as int), "-1"@)),
            "-x"@ + signed_decimal(w as int),
        ),
        (None, Some(h)) => (
            Some(scale_text_of("-1"@, signed_decimal(h as int))),
            "-y"@ + signed_decimal(h as int),
        ),
        (None, None) => (None, Seq::<char>::empty()),
    }
}

/// Builds the scale filter and the name suffix of a scene image.
pub fn scene_image_scale(width: Option<i32>, height: Option<i32>) -> (r: (Option<String>, String))
    ensures
        (r.0.deep_view(), r.1@) == scene_image_scale_of(width, height),
{
    match (width, height) {
        (Some(w), Some(h)) => {
            let a = signed_decimal_string(w as i64);
            let b = signed_decimal_string(h as i64);
            let mut suffix = String::from_str("-x");
            suffix.append(a.as_str());
            suffix.append("-y");
            suffix.append(b.as_str());
            let ghost want = scene_image_scale_of(width, height);
            assert(suffix@ =~= want.1);
            (Some(scale_text(a.as_str(), b.as_str())), suffix)
        },
        (Some(w), None) => {
            let a = signed_decimal_string(w as i64);
            let mut suffix = String::from_str("-x");
            suffix.append(a.as_str());
            let ghost want = scene_image_scale_of(width, height);
            assert(suffix@ =~= want.1);
            (Some(scale_text(a.as_str(), "-1")), suffix)
        },
        (None, Some(h)) => {
            let b = signed_decimal_string(h as i64);
            let mut suffix = String::from_str("-y");
            suffix.append(b.as_str());
            let ghost want = scene_image_scale_of(width, height);
            assert(suffix@ =~= want.1);
            (Some(scale_text("-1", b.as_str())), suffix)
        },
        (None, None) => (None, String::new()),
    }
}

/// The value given for transition `gap` (counting from 1) of a list that holds
/// one value per transition or fewer: its own value, or the last one given.
pub open spec fn gap_value_of(values: Seq<Seq<char>>, gap: int) -> Seq<char> {
    if gap - 1 < values.len() {
        values[gap - 1]
    } else {
        values.last()
    }
}

/// Picks the value for a transition.
pub fn gap_value(values: &Vec<String>, gap: usize) -> (r: String)
    requires
        values@.len() > 0,
        gap >= 1,
    ensures
        r@ == gap_value_of(values.deep_view(), gap as int),
{
    if gap - 1 < values.len() {
        assert(values[gap - 1]@ == values.deep_view()[gap - 1]);
        String::from_str(values[gap - 1].as_str())
    } else {
        let n = values.len();
        assert(values[n - 1]@ == values.deep_view().last());
        String::from_str(values[n - 1].as_str())
    }
}

/// One value stands for every transition, and one value per transition gives
/// each its own.
pub proof fn lemma_gap_value_one_for_all(values: Seq<Seq<char>>, gap: int)
    requires
        values.len() > 0,
        gap >= 1,
    ensures
        values.len() == 1 ==> gap_value_of(values, gap) == values[0],
        gap <= values.len() ==> gap_value_of(values, gap) == values[gap - 1],
{
}

/// The stream labels around transition `gap` of a chain: the left video and
/// audio inputs (the first clip's streams for the first transition, else the
/// previous transition's outputs) and the outputs `[v{gap}]` and `[a{gap}]`.
pub open spec fn chain_labels_of(gap: u64) -> (Seq<char>, Seq<char>, Seq<char>, Seq<char>) {
    (
        if gap == 1 {
            "[0:v]"@
        } else {
            "[v"@ + decimal((gap - 1) as nat) + "]"@
        },
        if gap == 1 {
            "[0:a]"@
        } else {
            "[a"@ + decimal((gap - 1) as nat) + "]"@
        },
        "[v"@ + decimal(gap as nat) + "]"@,
        "[a"@ + decimal(gap as nat) + "]"@,
    )
}

fn label(kind: &str, n: u64) -> (r: String)
    ensures
        r@ == "["@ + kind@ + decimal(n as nat) + "]"@,
{
    let mut r = String::from_str("[");
    r.append(kind);
    let d = decimal_string(n);
    r.append(d.as_str());
    r.append("]");
    assert(r@ =~= "["@ + kind@ + decimal(n as nat) + "]"@);
    r
}

/// Builds the stream labels around a transition.
pub fn chain_labels(gap: u64) -> (r: (String, String, String, String))
    requires
        gap >= 1,
    ensures
        (r.0@, r.1@, r.2@, r.3@) == chain_labels_of(gap),
{
    let v_in = if gap == 1 {
        String::from_str("[0:v]")
    } else {
        label("v", gap - 1)
    };
    let a_in = if gap == 1 {
        String::from_str("[0:a]")
    } else {
        label("a", gap - 1)
    };
    let v_out = label("v", gap);
    let a_out = label("a", gap);
    proof {
        reveal_strlit("v");
        reveal_strlit("a");
        reveal_strlit("[");
        reveal_strlit("]");
        reveal_strlit("[v");
        reveal_strlit("[a");
        assert("["@ + "v"@ =~= "[v"@);
        assert("["@ + "a"@ =~= "[a"@);
    }
    assert(gap != 1 ==> v_in@ =~= chain_labels_of(gap).0);
    assert(gap != 1 ==> a_in@ =~= chain_labels_of(gap).1);
    assert(v_out@ =~= chain_labels_of(gap).2);
    assert(a_out@ =~= chain_labels_of(gap).3);
    (v_in, a_in, v_out, a_out)
}

/// The transitions of a chain link up: the inputs of each transition after
/// the first are the outputs of the one before it.
pub proof fn lemma_chain_labels_link(gap: u64)
    requires
        1 <= gap < u64::MAX,
    ensures
        chain_labels_of((gap + 1) as u64).0 == chain_labels_of(gap).2,
        chain_labels_of((gap + 1) as u64).1 == chain_labels_of(gap).3,
{
}

/// The list file of the concat demuxer: one `file '{path}'` line per input.
pub open spec fn concat_list_of(inputs: Seq<Seq<char>>) -> Seq<char>
    decreases inputs.len(),
{
    if inputs.len() == 0 {
        Seq::<char>::empty()
    } else {
        concat_list_of(inputs.drop_last()) + crate::names::concat_entry_of(inputs.last())
    }
}

/// Writes the list file of the concat demuxer.
pub fn concat_list(inputs: &Vec<String>) -> (r: String)
    ensures
        r@ == concat_list_of(inputs.deep_view()),
{
    let ghost d = inputs.deep_view();
    let n = inputs.len();
    let mut r = String::new();
    let mut i: usize = 0;
    assert(d.take(0) =~= Seq::<Seq<char>>::empty());
    while i < n
        invariant
            n == d.len(),
            d == inputs.deep_view(),
            i <= n,
            r@ == concat_list_of(d.take(i as int)),
        decreases n - i,
    {
        assert(d.take(i + 1).drop_last() =~= d.take(i as int));
        assert(inputs[i as int]@ == d[i as int]);
        let e = crate::names::concat_entry(inputs[i].as_str());
        r.append(e.as_str());
        i = i + 1;
    }
    assert(d.take(n as int) =~= d);
    r
}

/// Scene change detection limited to the time window from `start` to `end`
/// (seconds, as text).
pub open spec fn scene_window_filter_of(start: Seq<char>, end: Seq<char>, threshold: Seq<char>) -> Seq<char> {
    "[0:v]select='between(t,"@ + start + ","@ + end + ")'[t1]; [t1]"@ + scene_select_filter_of(threshold)
}

/// Builds the text of `scene_window_filter_of`.
pub fn scene_window_filter(start: &str, end: &str, threshold: &str) -> (r: String)
    ensures
        r@ == scene_window_filter_of(start@, end@, threshold@),
{
    let mut r = String::new();
    r.append("[0:v]select='between(t,");
    r.append(start);
    r.append(",");
    r.append(end);
    r.append(")'[t1]; [t1]");
    let tail = scene_select_filter(threshold);
    r.append(tail.as_str());
    assert(r@ =~= scene_window_filter_of(start@, end@, threshold@));
    r
}

/// The video and audio fades of a clip that fades in over `duration`
/// seconds (as text).
pub open spec fn fade_in_filters_of(duration: Seq<char>) -> (Seq<char>, Seq<char>) {
    ("fade=t=in:st=0:d="@ + duration, "afade=t=in:st=0:d="@ + duration)
}

/// Builds the video and audio filters of `fade_in_filters_of`.
pub fn fade_in_filters(duration: &str) -> (r: (String, String))
    ensures
        (r.0@, r.1@) == fade_in_filters_of(duration@),
{
    let mut v = String::from_str("fade=t=in:st=0:d=");
    v.append(duration);
    let mut a = String::from_str("afade=t=in:st=0:d=");
    a.append(duration);
    (v, a)
}

/// The start of a pan over a still image `iw` by `ih` pixels: the image
/// scaled to three times the height and cropped by `zoom` (`/1.05` or `/1.2`).
pub open spec fn pan_head(iw: u32, ih: u32, zoom: Seq<char>) -> Seq<char> {
    "scale=w=-2:h=3*"@ + decimal(ih as nat) + ",crop=w=3*"@ + decimal(iw as nat) + zoom + ":h=3*"@
        + decimal(ih as nat) + zoom + ":"@
}

/// The end of a pan: the crop scaled back to the image size.
pub open spec fn pan_tail(iw: u32, ih: u32) -> Seq<char> {
    ",scale=w="@ + decimal(iw as nat) + ":h="@ + decimal(ih as nat) + ",setsar=1"@
}

/// The pan filter for a position: `l` and `r` move across (crop `/1.05`), `u`
/// and `d` move down and up (crop `/1.2`), over `duration` seconds (as text);
/// there is none for another position.
pub open spec fn pan_filter_of(position: Seq<char>, iw: u32, ih: u32, duration: Seq<char>) -> Option<Seq<char>> {
    if position == "l"@ {
        Some(pan_head(iw, ih, "/1.05"@) + "x=t*(in_w-out_w)/"@ + duration + ":y=(in_h-out_h)/2"@ + pan_tail(iw, ih))
    } else if position == "r"@ {
        Some(pan_head(iw, ih, "/1.05"@) + "x=(in_w-out_w)-t*(in_w-out_w)/"@ + duration + ":y=(in_h-out_h)/2"@
            + pan_tail(iw, ih))
    } else if position == "u"@ {
        Some(pan_head(iw, ih, "/1.2"@) + "x=(in_w-out_w)/2:y=t*(in_h-out_h)/"@ + duration + pan_tail(iw, ih))
    } else if position == "d"@ {
        Some(pan_head(iw, ih, "/1.2"@) + "x=(in_w-out_w)/2:y=(in_h-out_h)-t*(in_h-out_h)/"@ + duration
            + pan_tail(iw, ih))
    } else {
        None
    }
}

fn push_pan_head(r: &mut String, iw: u32, ih: u32, zoom: &str)
    ensures
        final(r)@ == old(r)@ + pan_head(iw, ih, zoom@),
{
    let w = decimal_string(iw as u64);
    let h = decimal_string(ih as u64);
    r.append("scale=w=-2:h=3*");
    r.append(h.as_str());
    r.append(",crop=w=3*");
    r.append(w.as_str());
    r.append(zoom);
    r.append(":h=3*");
    r.append(h.as_str());
    r.append(zoom);
    r.append(":");
    assert(final(r)@ =~= old(r)@ + pan_head(iw, ih, zoom@));
}

fn push_pan_tail(r: &mut String, iw: u32, ih: u32)
    ensures
        final(r)@ == old(r)@ + pan_tail(iw, ih),
{
    let w = decimal_string(iw as u64);
    let h = decimal_string(ih as u64);
    r.append(",scale=w=");
    r.append(w.as_str());
    r.append(":h=");
    r.append(h.as_str());
    r.append(",setsar=1");
    assert(final(r)@ =~= old(r)@ + pan_tail(iw, ih));
}

/// Builds the pan filter for a position, or `None` for a position other than
/// `l`, `r`, `u` or `d`.
pub fn pan_filter(position: &str, iw: u32, ih: u32, duration: &str) -> (r: Option<String>)
    ensures
        r.deep_view() == pan_filter_of(position@, iw, ih, duration@),
{
    let mut r = String::new();
    if same_text(position, "l") {
        push_pan_head(&mut r, iw, ih, "/1.05");
        r.append("x=t*(in_w-out_w)/");
        r.append(duration);
        r.append(":y=(in_h-out_h)/2");
        push_pan_tail(&mut r, iw, ih);
        assert(r@ =~= pan_filter_of(position@, iw, ih, duration@)->Some_0);
        Some(r)
    } else if same_text(position, "r") {
        push_pan_head(&mut r, iw, ih, "/1.05");
        r.append("x=(in_w-out_w)-t*(in_w-out_w)/");
        r.append(duration);
        r.append(":y=(in_h-out_h)/2");
        push_pan_tail(&mut r, iw, ih);
        assert(r@ =~= pan_filter_of(position@, iw, ih, duration@)->Some_0);
        Some(r)
    } else if same_text(position, "u") {
        push_pan_head(&mut r, iw, ih, "/1.2");
        r.append("x=(in_w-out_w)/2:y=t*(in_h-out_h)/");
        r.append(duration);
        push_pan_tail(&mut r, iw, ih);
        assert(r@ =~= pan_filter_of(position@, iw, ih, duration@)->Some_0);
        Some(r)
    } else if same_text(position, "d") {
        push_pan_head(&mut r, iw, ih, "/1.2");
        r.append("x=(in_w-out_w)/2:y=(in_h-out_h)-t*(in_h-out_h)/");
        r.append(duration);
        push_pan_tail(&mut r, iw, ih);
        assert(r@ =~= pan_filter_of(position@, iw, ih, duration@)->Some_0);
        Some(r)
    } else {
        None
    }
}

/// A transition between two clips, `transition` lasting `duration` seconds
/// from `offset` seconds (both as text), on the video and the audio.
pub open spec fn xfade_pair_filter_of(transition: Seq<char>, duration: Seq<char>, offset: Seq<char>) -> Seq<char> {
    "[0:v][1:v]xfade=transition="@ + transition + ":duration="@ + duration + ":offset="@ + offset
        + "[v]; [0:a][1:a]acrossfade=d="@ + duration + "[a]"@
}

/// Builds the text of `xfade_pair_filter_of`.
pub fn xfade_pair_filter(transition: &str, duration: &str, offset: &str) -> (r: String)
    ensures
        r@ == xfade_pair_filter_of(transition@, duration@, offset@),
{
    let mut r = String::from_str("[0:v][1:v]xfade=transition=");
    r.append(transition);
    r.append(":duration=");
    r.append(duration);
    r.append(":offset=");
    r.append(offset);
    r.append("[v]; [0:a][1:a]acrossfade=d=");
    r.append(duration);
    r.append("[a]");
    assert(r@ =~= xfade_pair_filter_of(transition@, duration@, offset@));
    r
}

/// One transition of a chain: input `gap` joins the video `v_in` and the audio
/// `a_in` with `transition` lasting `duration` seconds from `offset` seconds
/// (both as text), giving `v_out` and `a_out`.
pub open spec fn xfade_step_of(
    v_in: Seq<char>,
    a_in: Seq<char>,
    gap: u64,
    transition: Seq<char>,
    duration: Seq<char>,
    offset: Seq<char>,
    v_out: Seq<char>,
    a_out: Seq<char>,
) -> Seq<char> {
    v_in + "["@ + decimal(gap as nat) + ":v]xfade=transition='"@ + transition + "':duration="@ + duration
        + ":offset="@ + offset + v_out + ";"@ + a_in + "["@ + decimal(gap as nat) + ":a]acrossfade=d="@
        + duration + a_out + ";"@
}

/// Builds the text of `xfade_step_of`.
pub fn xfade_step(
    v_in: &str,
    a_in: &str,
    gap: u64,
    transition: &str,
    duration: &str,
    offset: &str,
    v_out: &str,
    a_out: &str,
) -> (r: String)
    ensures
        r@ == xfade_step_of(v_in@, a_in@, gap, transition@, duration@, offset@, v_out@, a_out@),
{
    let g = decimal_string(gap);
    let mut r = String::from_str(v_in);
    r.append("[");
    r.append(g.as_str());
    r.append(":v]xfade=transition='");
    r.append(transition);
    r.append("':duration=");
    r.append(duration);
    r.append(":offset=");
    r.append(offset);
    r.append(v_out);
    r.append(";");
    r.append(a_in);
    r.append("[");
    r.append(g.as_str());
    r.append(":a]acrossfade=d=");
    r.append(duration);
    r.append(a_out);
    r.append(";");
    assert(r@ =~= xfade_step_of(v_in@, a_in@, gap, transition@, duration@, offset@, v_out@, a_out@));
    r
}

/// An overlay clip laid over the main video from `start` seconds (as text).
pub open spec fn overlay_delay_filter_of(start: Seq<char>) -> Seq<char> {
    "[1:v]setpts=PTS+"@ + start + "/TB[fg]; [0:v][fg]overlay=eof_action=pass"@
}

/// Builds the text of `overlay_delay_filter_of`.
pub fn overlay_delay_filter(start: &str) -> (r: String)
    ensures
        r@ == overlay_delay_filter_of(start@),
{
    let mut r = String::from_str("[1:v]setpts=PTS+");
    r.append(start);
    r.append("/TB[fg]; [0:v][fg]overlay=eof_action=pass");
    assert(r@ =~= overlay_delay_filter_of(start@));
    r
}

/// A picture-in-picture overlay: the inset scaled to `scale`, framed by a
/// `border` in `color` placed at `offset`, faded in and out over `fade`
/// seconds, started at `start` seconds (both as text), and laid at `x`, `y`.
pub open spec fn pip_filter_of(
    scale: Seq<char>,
    border: i32,
    offset: i32,
    color: Seq<char>,
    fade: Seq<char>,
    start: Seq<char>,
    x: Seq<char>,
    y: Seq<char>,
) -> Seq<char> {
    let b = signed_decimal(border as int);
    let o = signed_decimal(offset as int);
    "[1:v]scale="@ + scale + ":-1,pad=w="@ + b + "+iw:h="@ + b + "+ih:x="@ + o + ":y="@ + o + ":color="@
        + color + "[pip_b]; [pip_b]fade=t=in:st=0:d="@ + fade + ",fade=t=out:st=999:d="@ + fade
        + "[pip_f]; [pip_f]setpts=PTS+"@ + start + "/TB[fg]; [0:v][fg]overlay="@ + x + ":"@ + y
        + ":eof_action=pass"@
}

/// Builds the text of `pip_filter_of`.
pub fn pip_filter(
    scale: &str,
    border: i32,
    offset: i32,
    color: &str,
    fade: &str,
    start: &str,
    x: &str,
    y: &str,
) -> (r: String)
    ensures
        r@ == pip_filter_of(scale@, border, offset, color@, fade@, start@, x@, y@),
{
    let b = signed_decimal_string(border as i64);
    let o = signed_decimal_string(offset as i64);
    let mut r = String::from_str("[1:v]scale=");
    r.append(scale);
    r.append(":-1,pad=w=");
    r.append(b.as_str());
    r.append("+iw:h=");
    r.append(b.as_str());
    r.append("+ih:x=");
    r.append(o.as_str());
    r.append(":y=");
    r.append(o.as_str());
    r.append(":color=");
    r.append(color);
    r.append("[pip_b]; [pip_b]fade=t=in:st=0:d=");
    r.append(fade);
    r.append(",fade=t=out:st=999:d=");
    r.append(fade);
    r.append("[pip_f]; [pip_f]setpts=PTS+");
    r.append(start);
    r.append("/TB[fg]; [0:v][fg]overlay=");
    r.append(x);
    r.append(":");
    r.append(y);
    r.append(":eof_action=pass");
    assert(r@ =~= pip_filter_of(scale@, border, offset, color@, fade@, start@, x@, y@));
    r
}

/// The sampling and scaling of the thumbnail sheet: `fps` frames per second
/// (as text) at the chosen width.
pub open spec fn tile_sampling_of(fps: Seq<char>, width: Seq<char>) -> Seq<char> {
    "fps="@ + fps + ",scale="@ + tile_width_of(width) + ":-2"@
}

/// Builds the text of `tile_sampling_of`.
pub fn tile_sampling(fps: &str, width: &str) -> (r: String)
    ensures
        r@ == tile_sampling_of(fps@, width@),
{
    let w = tile_width(width);
    let mut r = String::from_str("fps=");
    r.append(fps);
    r.append(",scale=");
    r.append(w.as_str());
    r.append(":-2");
    assert(r@ =~= tile_sampling_of(fps@, width@));
    r
}

/// The metadata entry that tags the subtitle stream with its language.
pub open spec fn language_tag_of(lang: Seq<char>) -> Seq<char> {
    "language="@ + lang
}

/// Builds the text of `language_tag_of`.
pub fn language_tag(lang: &str) -> (r: String)
    ensures
        r@ == language_tag_of(lang@),
{
    let mut r = String::from_str("language=");
    r.append(lang);
    r
}

/// The measured loudness reaches the second pass option by option: split at
/// `':'`, the filter reads `loudnorm=I={lufs}`, `TP={tp}`, `LRA=11`,
/// `measured_i={measured_i}`, `measured_tp={measured_tp}`,
/// `measured_lra={measured_lra}`, `measured_thresh={measured_thresh}`,
/// `offset={offset}` and `linear=true`, each value in its own option. This
/// holds where no value holds a `':'`.
pub proof fn lemma_loudnorm_apply_fields(
    lufs: Seq<char>,
    tp: Seq<char>,
    measured_i: Seq<char>,
    measured_tp: Seq<char>,
    measured_lra: Seq<char>,
    measured_thresh: Seq<char>,
    offset: Seq<char>,
)
    requires
        free_of(lufs, ':'),
        free_of(tp, ':'),
        free_of(measured_i, ':'),
        free_of(measured_tp, ':'),
        free_of(measured_lra, ':'),
        free_of(measured_thresh, ':'),
        free_of(offset, ':'),
    ensures
        split_char(
            loudnorm_apply_filter_of(lufs, tp, measured_i, measured_tp, measured_lra, measured_thresh, offset),
            ':',
        ) == seq![
            "loudnorm=I="@ + lufs,
            "TP="@ + tp,
            "LRA=11"@,
            "measured_i="@ + measured_i,
            "measured_tp="@ + measured_tp,
            "measured_lra="@ + measured_lra,
            "measured_thresh="@ + measured_thresh,
            "offset="@ + offset,
            "linear=true"@,
        ],
{
    reveal_strlit("loudnorm=I=");
    assert("loudnorm=I="@ =~= seq!['l', 'o', 'u', 'd', 'n', 'o', 'r', 'm', '=', 'I', '=']);
    reveal_strlit(":TP=");
    assert(":TP="@ =~= seq![':', 'T', 'P', '=']);
    reveal_strlit(":LRA=11:measured_i=");
    assert(":LRA=11:measured_i="@ =~= seq![':', 'L', 'R', 'A', '=', '1', '1', ':', 'm', 'e', 'a', 's', 'u', 'r', 'e', 'd', '_', 'i', '=']);
    reveal_strlit(":measured_tp=");
    assert(":measured_tp="@ =~= seq![':', 'm', 'e', 'a', 's', 'u', 'r', 'e', 'd', '_', 't', 'p', '=']);
    reveal_strlit(":measured_lra=");
    assert(":measured_lra="@ =~= seq![':', 'm', 'e', 'a', 's', 'u', 'r', 'e', 'd', '_', 'l', 'r', 'a', '=']);
    reveal_strlit(":measured_thresh=");
    assert(":measured_thresh="@ =~= seq![':', 'm', 'e', 'a', 's', 'u', 'r', 'e', 'd', '_', 't', 'h', 'r', 'e', 's', 'h', '=']);
    reveal_strlit(":offset=");
    assert(":offset="@ =~= seq![':', 'o', 'f', 'f', 's', 'e', 't', '=']);
    reveal_strlit(":linear=true");
    assert(":linear=true"@ =~= seq![':', 'l', 'i', 'n', 'e', 'a', 'r', '=', 't', 'r', 'u', 'e']);
    reveal_strlit("TP=");
    assert("TP="@ =~= seq!['T', 'P', '=']);
    reveal_strlit("LRA=11");
    assert("LRA=11"@ =~= seq!['L', 'R', 'A', '=', '1', '1']);
    reveal_strlit("measured_i=");
    assert("measured_i="@ =~= seq!['m', 'e', 'a', 's', 'u', 'r', 'e', 'd', '_', 'i', '=']);
    reveal_strlit("measured_tp=");
    assert("measured_tp="@ =~= seq!['m', 'e', 'a', 's', 'u', 'r', 'e', 'd', '_', 't', 'p', '=']);
    reveal_strlit("measured_lra=");
    assert("measured_lra="@ =~= seq!['m', 'e', 'a', 's', 'u', 'r', 'e', 'd', '_', 'l', 'r', 'a', '=']);
    reveal_strlit("measured_thresh=");
    assert("measured_thresh="@ =~= seq!['m', 'e', 'a', 's', 'u', 'r', 'e', 'd', '_', 't', 'h', 'r', 'e', 's', 'h', '=']);
    reveal_strlit("offset=");
    assert("offset="@ =~= seq!['o', 'f', 'f', 's', 'e', 't', '=']);
    reveal_strlit("linear=true");
    assert("linear=true"@ =~= seq!['l', 'i', 'n', 'e', 'a', 'r', '=', 't', 'r', 'u', 'e']);
    assert(free_of("loudnorm=I="@, ':'));
    assert(free_of("TP="@, ':'));
    assert(free_of("LRA=11"@, ':'));
    assert(free_of("measured_i="@, ':'));
    assert(free_of("measured_tp="@, ':'));
    assert(free_of("measured_lra="@, ':'));
    assert(free_of("measured_thresh="@, ':'));
    assert(free_of("offset="@, ':'));
    assert(free_of("linear=true"@, ':'));
    let parts = seq![
        "loudnorm=I="@ + lufs,
        "TP="@ + tp,
        "LRA=11"@,
        "measured_i="@ + measured_i,
        "measured_tp="@ + measured_tp,
        "measured_lra="@ + measured_lra,
        "measured_thresh="@ + measured_thresh,
        "offset="@ + offset,
        "linear=true"@,
    ];
    lemma_free_of_concat("loudnorm=I="@, lufs, ':');
    lemma_free_of_concat("TP="@, tp, ':');
    lemma_free_of_concat("measured_i="@, measured_i, ':');
    lemma_free_of_concat("measured_tp="@, measured_tp, ':');
    lemma_free_of_concat("measured_lra="@, measured_lra, ':');
    lemma_free_of_concat("measured_thresh="@, measured_thresh, ':');
    lemma_free_of_concat("offset="@, offset, ':');
    assert forall|i: int| 0 <= i < parts.len() implies free_of(#[trigger] parts[i], ':') by {
    }
    reveal_with_fuel(crate::text::join_with, 10);
    assert(join_with(parts, ':') =~= loudnorm_apply_filter_of(
        lufs,
        tp,
        measured_i,
        measured_tp,
        measured_lra,
        measured_thresh,
        offset,
    ));
    lemma_split_of_join(parts, ':');
}

/// The first pass likewise: split at `':'`, the filter reads
/// `loudnorm=I={lufs}`, `TP={tp}`, `LRA=11` and `print_format=json`, where
/// neither value holds a `':'`.
pub proof fn lemma_loudnorm_analysis_fields(lufs: Seq<char>, tp: Seq<char>)
    requires
        free_of(lufs, ':'),
        free_of(tp, ':'),
    ensures
        split_char(loudnorm_analysis_filter_of(lufs, tp), ':') == seq![
            "loudnorm=I="@ + lufs,
            "TP="@ + tp,
            "LRA=11"@,
            "print_format=json"@,
        ],
{
    reveal_strlit("loudnorm=I=");
    assert("loudnorm=I="@ =~= seq!['l', 'o', 'u', 'd', 'n', 'o', 'r', 'm', '=', 'I', '=']);
    reveal_strlit(":TP=");
    assert(":TP="@ =~= seq![':', 'T', 'P', '=']);
    reveal_strlit(":LRA=11:print_format=json");
    assert(":LRA=11:print_format=json"@ =~= seq![':', 'L', 'R', 'A', '=', '1', '1', ':', 'p', 'r', 'i', 'n', 't', '_', 'f', 'o', 'r', 'm', 'a', 't', '=', 'j', 's', 'o', 'n']);
    reveal_strlit("TP=");
    assert("TP="@ =~= seq!['T', 'P', '=']);
    reveal_strlit("LRA=11");
    assert("LRA=11"@ =~= seq!['L', 'R', 'A', '=', '1', '1']);
    reveal_strlit("print_format=json");
    assert("print_format=json"@ =~= seq!['p', 'r', 'i', 'n', 't', '_', 'f', 'o', 'r', 'm', 'a', 't', '=', 'j', 's', 'o', 'n']);
    assert(free_of("loudnorm=I="@, ':'));
    assert(free_of("TP="@, ':'));
    assert(free_of("LRA=11"@, ':'));
    assert(free_of("print_format=json"@, ':'));
    let parts = seq!["loudnorm=I="@ + lufs, "TP="@ + tp, "LRA=11"@, "print_format=json"@];
    lemma_free_of_concat("loudnorm=I="@, lufs, ':');
    lemma_free_of_concat("TP="@, tp, ':');
    assert forall|i: int| 0 <= i < parts.len() implies free_of(#[trigger] parts[i], ':') by {
    }
    reveal_with_fuel(crate::text::join_with, 5);
    assert(join_with(parts, ':') =~= loudnorm_analysis_filter_of(lufs, tp));
    lemma_split_of_join(parts, ':');
}

/// The picture-in-picture box sits in the corner it is asked for: for the top
/// corners (`tl`, `tr`) its y is the margin less the offset, measured from the
/// top, and for the bottom corners (`bl`, `br`) it is measured from the bottom
/// (`main_h-overlay_h-{margin}+{offset}`); for the left corners (`tl`, `bl`)
/// its x is the margin less the offset, measured from the left, and for the
/// right corners (`tr`, `br`) from the right (`main_w-overlay_w-...`).
pub proof fn lemma_pip_corners(pos: Seq<char>, margin: i32, offset: i32)
    ensures
        (pos == "tl"@ || pos == "tr"@) ==> pip_y_of(pos, margin, offset) == signed_decimal(margin as int)
            + "-"@ + signed_decimal(offset as int),
        (pos == "bl"@ || pos == "br"@) ==> pip_y_of(pos, margin, offset) == "main_h-overlay_h-"@
            + signed_decimal(margin as int) + "+"@ + signed_decimal(offset as int),
        (pos == "tl"@ || pos == "bl"@) ==> pip_x_of(pos, margin, offset) == signed_decimal(margin as int)
            + "-"@ + signed_decimal(offset as int),
        (pos == "tr"@ || pos == "br"@) ==> pip_x_of(pos, margin, offset) == "main_w-overlay_w-"@
            + signed_decimal(margin as int) + "+"@ + signed_decimal(offset as int),
        pip_y_of("tl"@, margin, offset) == pip_y_of("tr"@, margin, offset),
        pip_y_of("bl"@, margin, offset) == pip_y_of("br"@, margin, offset),
        pip_x_of("tl"@, margin, offset) == pip_x_of("bl"@, margin, offset),
        pip_x_of("tr"@, margin, offset) == pip_x_of("br"@, margin, offset),
        pip_y_of("tl"@, margin, offset) != pip_y_of("bl"@, margin, offset),
        pip_x_of("tl"@, margin, offset) != pip_x_of("tr"@, margin, offset),
{
    reveal_strlit("tl");
    assert("tl"@ =~= seq!['t', 'l']);
    reveal_strlit("tr");
    assert("tr"@ =~= seq!['t', 'r']);
    reveal_strlit("bl");
    assert("bl"@ =~= seq!['b', 'l']);
    reveal_strlit("br");
    assert("br"@ =~= seq!['b', 'r']);
    assert("tr"@[1] != "tl"@[1]);
    assert("bl"@[0] != "tl"@[0]);
    assert("bl"@[0] != "tr"@[0]);
    assert("br"@[0] != "tl"@[0]);
    assert("br"@[0] != "tr"@[0]);
    assert("br"@[1] != "bl"@[1]);
    reveal_strlit("");
    assert(""@ =~= Seq::<char>::empty());
    let m = signed_decimal(margin as int);
    let o = signed_decimal(offset as int);
    assert(""@ + m + "-"@ + o =~= m + "-"@ + o);
    reveal_strlit("main_h-overlay_h-");
    reveal_strlit("main_w-overlay_w-");
    crate::numfmt::lemma_decimal_digits(if margin < 0 { (-margin) as nat } else { margin as nat });
    let top = m + "-"@ + o;
    let bottom = "main_h-overlay_h-"@ + m + "+"@ + o;
    let right = "main_w-overlay_w-"@ + m + "+"@ + o;
    if margin < 0 {
        assert(top[0] == '-');
    } else {
        assert(crate::numfmt::is_digit(top[0]));
    }
    assert(bottom[0] == 'm');
    assert(right[0] == 'm');
}

/// The zoom stays anchored where it is asked to: the top anchors (`tl`, `tc`,
/// `tr`) keep y at 0 and the bottom ones (`bl`, `bc`, `br`) at `ih-ih/zoom`;
/// the left anchors (`tl`, `bl`) keep x at 0, the right ones (`tr`, `br`) at
/// `iw-iw/zoom` and the centred ones (`tc`, `bc`) at `iw/2-(iw/zoom/2)`;
/// every other position is the centre.
pub proof fn lemma_zoom_anchors(pos: Seq<char>)
    ensures
        (pos == "tl"@ || pos == "tc"@ || pos == "tr"@) ==> zoom_position_of(pos).1 == "0"@,
        (pos == "bl"@ || pos == "bc"@ || pos == "br"@) ==> zoom_position_of(pos).1 == "ih-ih/zoom"@,
        (pos == "tl"@ || pos == "bl"@) ==> zoom_position_of(pos).0 == "0"@,
        (pos == "tr"@ || pos == "br"@) ==> zoom_position_of(pos).0 == "iw-iw/zoom"@,
        (pos == "tc"@ || pos == "bc"@) ==> zoom_position_of(pos).0 == "iw/2-(iw/zoom/2)"@,
        !(pos == "tl"@ || pos == "tc"@ || pos == "tr"@ || pos == "bl"@ || pos == "bc"@ || pos == "br"@)
            ==> zoom_position_of(pos) == ("iw/2-(iw/zoom/2)"@, "ih/2-(ih/zoom/2)"@),
{
    reveal_strlit("tl");
    assert("tl"@ =~= seq!['t', 'l']);
    reveal_strlit("tc");
    assert("tc"@ =~= seq!['t', 'c']);
    reveal_strlit("tr");
    assert("tr"@ =~= seq!['t', 'r']);
    reveal_strlit("bl");
    assert("bl"@ =~= seq!['b', 'l']);
    reveal_strlit("bc");
    assert("bc"@ =~= seq!['b', 'c']);
    reveal_strlit("br");
    assert("br"@ =~= seq!['b', 'r']);
    assert("tc"@[1] != "tl"@[1]);
    assert("tr"@[1] != "tl"@[1]);
    assert("tr"@[1] != "tc"@[1]);
    assert("bl"@[0] != "tl"@[0]);
    assert("bl"@[0] != "tc"@[0]);
    assert("bl"@[0] != "tr"@[0]);
    assert("bc"@[0] != "tl"@[0]);
    assert("bc"@[0] != "tc"@[0]);
    assert("bc"@[0] != "tr"@[0]);
    assert("bc"@[1] != "bl"@[1]);
    assert("br"@[0] != "tl"@[0]);
    assert("br"@[0] != "tc"@[0]);
    assert("br"@[0] != "tr"@[0]);
    assert("br"@[1] != "bl"@[1]);
    assert("br"@[1] != "bc"@[1]);
}

/// The stacked height is the taller video's height, capped at 1080, and does
/// not depend on which video is on which side.
pub proof fn lemma_stack_height(h1: u32, h2: u32)
    ensures
        stack_height_of(h1, h2) == stack_height_of(h2, h1),
        stack_height_of(h1, h2) <= 1080,
        stack_height_of(h1, h2) == 1080 || (stack_height_of(h1, h2) >= h1 && stack_height_of(h1, h2) >= h2),
        stack_height_of(h1, h2) == h1 || stack_height_of(h1, h2) == h2 || stack_height_of(h1, h2) == 1080,
        h1 <= 1080 && h2 <= 1080 ==> (stack_height_of(h1, h2) == h1 || stack_height_of(h1, h2) == h2),
{
}

/// A pan exists exactly for the four direction letters, and those are the
/// letters that have a direction word: `l` left, `r` right, `u` up, `d` down.
pub proof fn lemma_pan_directions(pos: Seq<char>, iw: u32, ih: u32, duration: Seq<char>)
    ensures
        (pan_filter_of(pos, iw, ih, duration) is Some) == (pos == "l"@ || pos == "r"@ || pos == "u"@ || pos
            == "d"@),
        pos == "l"@ ==> pan_direction_of(pos) == "left"@,
        pos == "r"@ ==> pan_direction_of(pos) == "right"@,
        pos == "u"@ ==> pan_direction_of(pos) == "up"@,
        pos == "d"@ ==> pan_direction_of(pos) == "down"@,
        !(pos == "l"@ || pos == "r"@ || pos == "u"@ || pos == "d"@) ==> pan_direction_of(pos) == pos,
{
    reveal_strlit("l");
    assert("l"@ =~= seq!['l']);
    reveal_strlit("r");
    assert("r"@ =~= seq!['r']);
    reveal_strlit("u");
    assert("u"@ =~= seq!['u']);
    reveal_strlit("d");
    assert("d"@ =~= seq!['d']);
    assert("r"@[0] != "l"@[0]);
    assert("u"@[0] != "l"@[0]);
    assert("u"@[0] != "r"@[0]);
    assert("d"@[0] != "l"@[0]);
    assert("d"@[0] != "r"@[0]);
    assert("d"@[0] != "u"@[0]);
}

/// The audio of the filled video is AAC either way: AAC is copied, and only
/// other codecs are encoded.
pub proof fn lemma_audio_stream_codec(codec: Seq<char>)
    ensures
        (audio_stream_codec_of(codec) == "copy"@) == (codec == "aac"@),
        codec != "aac"@ ==> audio_stream_codec_of(codec) == "aac"@,
{
    reveal_strlit("copy");
    assert("copy"@ =~= seq!['c', 'o', 'p', 'y']);
    reveal_strlit("aac");
    assert("aac"@ =~= seq!['a', 'a', 'c']);
    assert("aac"@.len() != "copy"@.len());
}

/// Subtitles go in as `mov_text` in the MP4 family (mp4, m4v, mov) and as
/// SubRip in every other container.
pub proof fn lemma_subtitle_codec(ext: Seq<char>)
    ensures
        (ext == "mp4"@ || ext == "m4v"@ || ext == "mov"@) ==> subtitle_codec_of(ext) == "mov_text"@,
        !(ext == "mp4"@ || ext == "m4v"@ || ext == "mov"@) ==> subtitle_codec_of(ext) == "srt"@,
{
}

} // verus!
