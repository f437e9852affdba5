//! Sexagesimal time codes: their fields, their text, and their form inside
//! file names.
use vstd::prelude::*;
use crate::numfmt::{decimal, digits_value, padded_decimal_string, zero_padded, is_digit, lemma_decimal_digits};
use crate::text::{
    chars_of,
    lemma_split_char_nonempty,
    push_char,
    replace,
    replace_char,
    split,
    split_char,
    string_of,
};

verus! {

/// The primary path separator of the platform the program was built for
/// (`std::path::MAIN_SEPARATOR`). Trusted: it is `'/'` or `'\\'`, as std's
/// documentation gives it (`'\\'` on Windows, `'/'` on Unix). Which of the two
/// depends on the build target and is not stated.
#[verifier::external_body]
pub(crate) fn main_separator() -> (c: char)
    ensures
        c == '/' || c == '\\',
{
    std::path::MAIN_SEPARATOR
}

/// A time code as it may stand in a file name: on Windows every `':'` becomes
/// `'-'`, elsewhere the text is kept.
pub open spec fn filename_time(time: Seq<char>, windows: bool) -> Seq<char> {
    if windows {
        replace_char(time, ':', seq!['-'])
    } else {
        time
    }
}

/// Formats a time string for use in a file name on the given platform.
pub fn format_time_for_filename_on(time: &str, windows: bool) -> (r: String)
    ensures
        r@ == filename_time(time@, windows),
{
    if windows {
        let r = replace(time, ':', "-");
        proof {
            reveal_strlit("-");
        }
        assert("-"@ =~= seq!['-']);
        r
    } else {
        String::from_str(time)
    }
}

/// Formats a time string for use in a file name: colons are kept on Linux and
/// other Unix systems and replaced with dashes on Windows. Windows is told by
/// its path separator `'\\'` (which a few other targets, such as UEFI, share).
pub fn format_time_for_filename(time: &str) -> (r: String)
    ensures
        r@ == filename_time(time@, false) || r@ == filename_time(time@, true),
{
    format_time_for_filename_on(time, main_separator() == '\\')
}

/// Replacing one character by one character keeps the length and leaves no
/// occurrence of the replaced character.
pub proof fn lemma_filename_time_shape(time: Seq<char>, windows: bool)
    ensures
        filename_time(time, windows).len() == time.len(),
        windows ==> forall|i: int|
            0 <= i < time.len() ==> #[trigger] filename_time(time, windows)[i] != ':',
        !windows ==> filename_time(time, windows) == time,
    decreases time.len(),
{
    if windows && time.len() > 0 {
        lemma_filename_time_shape(time.drop_last(), windows);
        let p = filename_time(time.drop_last(), windows);
        if time.last() == ':' {
            assert(filename_time(time, windows) == p + seq!['-']);
        } else {
            assert(filename_time(time, windows) == p.push(time.last()));
        }
        assert forall|i: int| 0 <= i < time.len() implies #[trigger] filename_time(time, windows)[i]
            != ':' by {
            if i < time.len() - 1 {
                assert(filename_time(time, windows)[i] == p[i]);
            }
        }
    }
}

/// `HH:MM:SS`, each field zero-padded to two digits.
pub open spec fn clock(h: nat, m: nat, s: nat) -> Seq<char> {
    zero_padded(decimal(h), 2) + seq![':'] + zero_padded(decimal(m), 2) + seq![':'] + zero_padded(
        decimal(s),
        2,
    )
}

/// `HH:MM:SS.mmm`, the milliseconds zero-padded to three digits.
pub open spec fn clock_ms(h: nat, m: nat, s: nat, ms: nat) -> Seq<char> {
    clock(h, m, s) + seq!['.'] + zero_padded(decimal(ms), 3)
}

/// Appends the zero-padded decimal text of `n`.
fn push_padded(out: &mut String, n: u32, width: usize)
    ensures
        final(out)@ == old(out)@ + zero_padded(decimal(n as nat), width as nat),
{
    let t = padded_decimal_string(n as u64, width);
    out.append(t.as_str());
}

/// The text `HH:MM:SS` of a clock time, as `format!("{:02}:{:02}:{:02}")`.
pub fn clock_text(h: u32, m: u32, s: u32) -> (r: String)
    ensures
        r@ == clock(h as nat, m as nat, s as nat),
{
    let mut r = String::new();
    push_padded(&mut r, h, 2);
    push_char(&mut r, ':');
    push_padded(&mut r, m, 2);
    push_char(&mut r, ':');
    push_padded(&mut r, s, 2);
    assert(r@ =~= clock(h as nat, m as nat, s as nat));
    r
}

/// The text `HH:MM:SS.mmm`, as `format!("{:02}:{:02}:{:02}.{:03}")`.
pub fn clock_ms_text(h: u32, m: u32, s: u32, ms: u32) -> (r: String)
    ensures
        r@ == clock_ms(h as nat, m as nat, s as nat, ms as nat),
{
    let mut r = clock_text(h, m, s);
    push_char(&mut r, '.');
    push_padded(&mut r, ms, 3);
    assert(r@ =~= clock_ms(h as nat, m as nat, s as nat, ms as nat));
    r
}

/// The text that `format_seconds` prints for its whole fields: with the
/// milliseconds only where there are some.
pub fn clock_text_auto(h: u32, m: u32, s: u32, ms: u32) -> (r: String)
    ensures
        ms > 0 ==> r@ == clock_ms(h as nat, m as nat, s as nat, ms as nat),
        ms == 0 ==> r@ == clock(h as nat, m as nat, s as nat),
{
    if ms > 0 {
        clock_ms_text(h, m, s, ms)
    } else {
        clock_text(h, m, s)
    }
}

/// The part of a time code before its first `'.'` (its whole seconds), as
/// `t.split('.').next()` gives it.
pub open spec fn without_fraction_of(t: Seq<char>) -> Seq<char> {
    split_char(t, '.')[0]
}

/// Cuts the fractional seconds off a time code.
pub fn without_fraction(t: &str) -> (r: String)
    ensures
        r@ == without_fraction_of(t@),
{
    let parts = split(t, '.');
    proof {
        lemma_split_char_nonempty(t@, '.');
    }
    let first = &parts[0];
    assert(first@ == split_char(t@, '.')[0]);
    String::from_str(first.as_str())
}

/// Once `s` holds a `sep` at `k` and none before, its first piece is `s[..k]`.
pub proof fn lemma_split_first(s: Seq<char>, sep: char, k: int)
    requires
        0 <= k < s.len(),
        s[k] == sep,
        forall|i: int| 0 <= i < k ==> s[i] != sep,
    ensures
        split_char(s, sep)[0] == s.take(k),
        split_char(s, sep).len() >= 2,
    decreases s.len(),
{
    if s.len() == k + 1 {
        lemma_split_prefix_free(s.take(k), sep);
        assert(s.drop_last() =~= s.take(k));
    } else {
        assert(s.drop_last()[k] == sep);
        lemma_split_first(s.drop_last(), sep, k);
        assert(s.drop_last().take(k) =~= s.take(k));
    }
}

/// A text without `sep` is a single piece.
pub proof fn lemma_split_prefix_free(s: Seq<char>, sep: char)
    requires
        forall|i: int| 0 <= i < s.len() ==> s[i] != sep,
    ensures
        split_char(s, sep) == seq![s],
    decreases s.len(),
{
    if s.len() > 0 {
        lemma_split_prefix_free(s.drop_last(), sep);
        assert(s.drop_last().push(s.last()) =~= s);
    } else {
        assert(s =~= Seq::<char>::empty());
    }
}

proof fn lemma_padded_digits(n: nat, w: nat)
    ensures
        forall|i: int|
            0 <= i < zero_padded(decimal(n), w).len() ==> is_digit(
                #[trigger] zero_padded(decimal(n), w)[i],
            ),
{
    lemma_decimal_digits(n);
    let d = decimal(n);
    let z = zero_padded(d, w);
    assert forall|i: int| 0 <= i < z.len() implies is_digit(#[trigger] z[i]) by {
        if d.len() < w {
            let pad = Seq::new((w - d.len()) as nat, |j: int| '0');
            if i >= pad.len() {
                assert(z[i] == d[i - pad.len()]);
            }
        }
    }
}

/// Cutting the fraction off `HH:MM:SS.mmm` gives `HH:MM:SS`.
pub proof fn lemma_without_fraction_of_clock_ms(h: nat, m: nat, s: nat, ms: nat)
    ensures
        without_fraction_of(clock_ms(h, m, s, ms)) == clock(h, m, s),
{
    let c = clock(h, m, s);
    let t = clock_ms(h, m, s, ms);
    lemma_padded_digits(h, 2);
    lemma_padded_digits(m, 2);
    lemma_padded_digits(s, 2);
    let a = zero_padded(decimal(h), 2);
    let b = zero_padded(decimal(m), 2);
    let e = zero_padded(decimal(s), 2);
    assert forall|i: int| 0 <= i < c.len() implies c[i] != '.' by {
        if i < a.len() {
            assert(c[i] == a[i]);
            assert(is_digit(a[i]));
        } else if i == a.len() {
        } else if i < a.len() + 1 + b.len() {
            assert(c[i] == b[i - a.len() - 1]);
            assert(is_digit(b[i - a.len() - 1]));
        } else if i == a.len() + 1 + b.len() {
        } else {
            assert(c[i] == e[i - a.len() - 2 - b.len()]);
            assert(is_digit(e[i - a.len() - 2 - b.len()]));
        }
    }
    assert(t[c.len() as int] == '.');
    assert forall|i: int| 0 <= i < c.len() implies t[i] != '.' by {
        assert(t[i] == c[i]);
    }
    lemma_split_first(t, '.', c.len() as int);
    assert(t.take(c.len() as int) =~= c);
}

/// The fields of a time code, as `parse_to_seconds` reads them: three
/// `':'`-separated fields are hours, minutes and seconds, two are minutes and
/// seconds, and anything else is a number of seconds.
#[derive(Debug)]
pub enum TimestampFields {
    HoursMinutesSeconds(String, String, String),
    MinutesSeconds(String, String),
    Seconds(String),
}

/// The view of `TimestampFields`, over texts.
pub enum TimestampFieldsView {
    HoursMinutesSeconds(Seq<char>, Seq<char>, Seq<char>),
    MinutesSeconds(Seq<char>, Seq<char>),
    Seconds(Seq<char>),
}

impl View for TimestampFields {
    type V = TimestampFieldsView;

    open spec fn view(&self) -> TimestampFieldsView {
        match self {
            TimestampFields::HoursMinutesSeconds(h, m, s) => TimestampFieldsView::HoursMinutesSeconds(
                h@,
                m@,
                s@,
            ),
            TimestampFields::MinutesSeconds(m, s) => TimestampFieldsView::MinutesSeconds(m@, s@),
            TimestampFields::Seconds(s) => TimestampFieldsView::Seconds(s@),
        }
    }
}

/// The fields that `split_timestamp` reports for a time code.
pub open spec fn timestamp_fields(t: Seq<char>) -> TimestampFieldsView {
    let p = split_char(t, ':');
    if p.len() == 3 {
        TimestampFieldsView::HoursMinutesSeconds(p[0], p[1], p[2])
    } else if p.len() == 2 {
        TimestampFieldsView::MinutesSeconds(p[0], p[1])
    } else {
        TimestampFieldsView::Seconds(t)
    }
}

/// Splits a time code (`HH:MM:SS.mmm`, `MM:SS` or plain seconds) into the
/// fields whose numbers make up its total of seconds.
pub fn split_timestamp(timestamp: &str) -> (f: TimestampFields)
    ensures
        f@ == timestamp_fields(timestamp@),
{
    let mut parts = split(timestamp, ':');
    let ghost p = split_char(timestamp@, ':');
    if parts.len() == 3 {
        let s = parts.pop().unwrap();
        let m = parts.pop().unwrap();
        let h = parts.pop().unwrap();
        assert(h@ == p[0] && m@ == p[1] && s@ == p[2]);
        TimestampFields::HoursMinutesSeconds(h, m, s)
    } else if parts.len() == 2 {
        let s = parts.pop().unwrap();
        let m = parts.pop().unwrap();
        assert(m@ == p[0] && s@ == p[1]);
        TimestampFields::MinutesSeconds(m, s)
    } else {
        TimestampFields::Seconds(String::from_str(timestamp))
    }
}

/// Reading the digits of a zero-padded decimal text gives the number.
pub proof fn lemma_padded_value(n: nat, w: nat)
    ensures
        digits_value(zero_padded(decimal(n), w)) == n,
        crate::numfmt::all_digits(zero_padded(decimal(n), w)),
        zero_padded(decimal(n), w).len() > 0,
{
    crate::numfmt::lemma_decimal_value(n);
    lemma_decimal_digits(n);
    lemma_padded_digits(n, w);
    let d = decimal(n);
    if d.len() < w {
        lemma_leading_zeros((w - d.len()) as nat, d);
    }
}

proof fn lemma_leading_zeros(k: nat, d: Seq<char>)
    ensures
        digits_value(Seq::new(k, |i: int| '0') + d) == digits_value(d),
    decreases d.len(),
{
    let z = Seq::new(k, |i: int| '0');
    if d.len() == 0 {
        assert(z + d =~= z);
        lemma_zeros_value(k);
    } else {
        lemma_leading_zeros(k, d.drop_last());
        assert((z + d).drop_last() =~= z + d.drop_last());
    }
}

proof fn lemma_zeros_value(k: nat)
    ensures
        digits_value(Seq::new(k, |i: int| '0')) == 0,
    decreases k,
{
    if k > 0 {
        lemma_zeros_value((k - 1) as nat);
        assert(Seq::new(k, |i: int| '0').drop_last() =~= Seq::new((k - 1) as nat, |i: int| '0'));
    }
}

/// A text with no `':'` in it stays whole when split at `':'`; the text
/// `a:b:c` with no `':'` inside `a`, `b` or `c` splits into those three.
proof fn lemma_split_three(a: Seq<char>, b: Seq<char>, c: Seq<char>)
    requires
        forall|i: int| 0 <= i < a.len() ==> a[i] != ':',
        forall|i: int| 0 <= i < b.len() ==> b[i] != ':',
        forall|i: int| 0 <= i < c.len() ==> c[i] != ':',
    ensures
        split_char(a + seq![':'] + b + seq![':'] + c, ':') == seq![a, b, c],
{
    lemma_split_prefix_free(a, ':');
    let ab = a + seq![':'];
    assert(ab.drop_last() =~= a);
    assert(split_char(ab, ':') =~= seq![a, Seq::<char>::empty()]);
    crate::text::lemma_split_extend(ab, b, ':');
    assert(Seq::<char>::empty() + b =~= b);
    assert(split_char(ab + b, ':') =~= seq![a, b]);
    let abb = ab + b + seq![':'];
    assert(abb.drop_last() =~= ab + b);
    assert(split_char(abb, ':') =~= seq![a, b, Seq::<char>::empty()]);
    crate::text::lemma_split_extend(abb, c, ':');
    assert(abb + c =~= a + seq![':'] + b + seq![':'] + c);
    assert(split_char(abb + c, ':') =~= seq![a, b, c]);
}

/// The time code `HH:MM:SS.mmm` that the formatter writes reads back as the
/// hours, minutes and seconds fields, whose digits give back the hours and
/// minutes, and whose seconds field is the seconds, a dot and the
/// milliseconds, each of whose digits give back the number.
pub proof fn lemma_clock_ms_reads_back(h: nat, m: nat, s: nat, ms: nat)
    ensures
        timestamp_fields(clock_ms(h, m, s, ms)) == TimestampFieldsView::HoursMinutesSeconds(
            zero_padded(decimal(h), 2),
            zero_padded(decimal(m), 2),
            zero_padded(decimal(s), 2) + seq!['.'] + zero_padded(decimal(ms), 3),
        ),
        digits_value(zero_padded(decimal(h), 2)) == h,
        digits_value(zero_padded(decimal(m), 2)) == m,
        digits_value(zero_padded(decimal(s), 2)) == s,
        digits_value(zero_padded(decimal(ms), 3)) == ms,
{
    lemma_padded_value(h, 2);
    lemma_padded_value(m, 2);
    lemma_padded_value(s, 2);
    lemma_padded_value(ms, 3);
    let a = zero_padded(decimal(h), 2);
    let b = zero_padded(decimal(m), 2);
    let c = zero_padded(decimal(s), 2) + seq!['.'] + zero_padded(decimal(ms), 3);
    let e = zero_padded(decimal(s), 2);
    let f = zero_padded(decimal(ms), 3);
    assert forall|i: int| 0 <= i < a.len() implies a[i] != ':' by {
        assert(is_digit(a[i]));
    }
    assert forall|i: int| 0 <= i < b.len() implies b[i] != ':' by {
        assert(is_digit(b[i]));
    }
    assert forall|i: int| 0 <= i < c.len() implies c[i] != ':' by {
        if i < e.len() {
            assert(c[i] == e[i]);
            assert(is_digit(e[i]));
        } else if i > e.len() {
            assert(c[i] == f[i - e.len() - 1]);
            assert(is_digit(f[i - e.len() - 1]));
        }
    }
    lemma_split_three(a, b, c);
    assert(clock_ms(h, m, s, ms) =~= a + seq![':'] + b + seq![':'] + c);
}

/// Splitting a time code into fields loses nothing: the fields joined with
/// `':'` give back the time code.
pub proof fn lemma_timestamp_fields_rejoin(t: Seq<char>)
    ensures
        match timestamp_fields(t) {
            TimestampFieldsView::HoursMinutesSeconds(h, m, s) => h + seq![':'] + m + seq![':'] + s
                == t,
            TimestampFieldsView::MinutesSeconds(m, s) => m + seq![':'] + s == t,
            TimestampFieldsView::Seconds(s) => s == t,
        },
{
    crate::text::lemma_split_join(t, ':');
    let p = split_char(t, ':');
    if p.len() == 3 {
        let q = p.drop_last();
        assert(q.drop_last() =~= seq![p[0]]);
        assert(q.last() == p[1]);
        assert(crate::text::join_with(seq![p[0]], ':') == p[0]);
        assert(crate::text::join_with(q, ':') == p[0].push(':') + p[1]);
        assert(crate::text::join_with(p, ':') == crate::text::join_with(q, ':').push(':') + p[2]);
        assert((p[0].push(':') + p[1]).push(':') + p[2] =~= p[0] + seq![':'] + p[1] + seq![':']
            + p[2]);
    } else if p.len() == 2 {
        assert(p.drop_last() =~= seq![p[0]]);
        assert(crate::text::join_with(seq![p[0]], ':') == p[0]);
        assert(crate::text::join_with(p, ':') == p[0].push(':') + p[1]);
        assert(p[0].push(':') + p[1] =~= p[0] + seq![':'] + p[1]);
    }
}

} // verus!
