//! iCalendar (RFC 5545) text for a calendar.

use vstd::prelude::*;
use crate::datetime::{Timestamp, MIN_UNIX_NANOS, MAX_UNIX_NANOS, local_fields_of, local_date_time};
use crate::calendar::{SsufidCalendar, SsufidCalendarSiteData};
use crate::text::{chars_of, string_of, push_char};

verus! {

/// The product identifier written into every calendar.
pub const PROD_ID: &'static str = "-//ssufid//calendar//KO";

/// The longest line, in bytes, before it is folded.
pub const MAX_LINE_BYTES: usize = 75;

/// The escaped form of one character of text: backslash, semicolon and comma take a
/// backslash before them, a line feed becomes `\n`, and a carriage return is dropped.
pub open spec fn escape_char(c: char) -> Seq<char> {
    if c == '\\' {
        seq!['\\', '\\']
    } else if c == ';' {
        seq!['\\', ';']
    } else if c == ',' {
        seq!['\\', ',']
    } else if c == '\r' {
        Seq::empty()
    } else if c == '\n' {
        seq!['\\', 'n']
    } else {
        seq![c]
    }
}

/// The escaped form of a text: each character escaped in turn.
pub open spec fn escape_seq(s: Seq<char>) -> Seq<char>
    decreases s.len(),
{
    if s.len() == 0 {
        Seq::empty()
    } else {
        escape_char(s[0]) + escape_seq(s.drop_first())
    }
}

proof fn lemma_escape_push(a: Seq<char>, c: char)
    ensures
        escape_seq(a.push(c)) == escape_seq(a) + escape_char(c),
    decreases a.len(),
{
    if a.len() > 0 {
        lemma_escape_push(a.drop_first(), c);
        assert(a.push(c).drop_first() == a.drop_first().push(c));
        assert(escape_seq(a.push(c)) == escape_char(a[0]) + escape_seq(a.drop_first().push(c)));
    } else {
        assert(a.push(c).drop_first() =~= Seq::<char>::empty());
        assert(escape_seq(a.push(c)) == escape_char(c) + escape_seq(Seq::<char>::empty()));
    }
}

/// Escapes text for an iCalendar property value.
pub fn escape_text(text: &str) -> (out: String)
    ensures
        out@ == escape_seq(text@),
{
    let v = chars_of(text);
    let mut out = String::new();
    let mut i: usize = 0;
    while i < v.len()
        invariant
            i <= v.len(),
            out@ == escape_seq(v@.take(i as int)),
        decreases v.len() - i,
    {
        let c = v[i];
        if c == '\\' {
            push_char(&mut out, '\\');
            push_char(&mut out, '\\');
        } else if c == ';' {
            push_char(&mut out, '\\');
            push_char(&mut out, ';');
        } else if c == ',' {
            push_char(&mut out, '\\');
            push_char(&mut out, ',');
        } else if c == '\r' {
        } else if c == '\n' {
            push_char(&mut out, '\\');
            push_char(&mut out, 'n');
        } else {
            push_char(&mut out, c);
        }
        proof {
            assert(v@.take(i + 1) == v@.take(i as int).push(c));
            lemma_escape_push(v@.take(i as int), c);
        }
        i += 1;
    }
    proof {
        assert(v@.take(v@.len() as int) == v@);
    }
    out
}

/// The text that an escaped text stands for: `\n` reads as a line feed, and a
/// backslash makes the character after it literal.
pub open spec fn unescape_seq(s: Seq<char>) -> Seq<char>
    decreases s.len(),
{
    if s.len() == 0 {
        Seq::empty()
    } else if s[0] == '\\' && s.len() >= 2 {
        (if s[1] == 'n' { seq!['\n'] } else { seq![s[1]] }) + unescape_seq(s.skip(2))
    } else {
        seq![s[0]] + unescape_seq(s.skip(1))
    }
}

/// The characters of `s` other than carriage returns.
pub open spec fn without_cr(s: Seq<char>) -> Seq<char>
    decreases s.len(),
{
    if s.len() == 0 {
        Seq::empty()
    } else if s[0] == '\r' {
        without_cr(s.drop_first())
    } else {
        seq![s[0]] + without_cr(s.drop_first())
    }
}

/// Escaping loses nothing but carriage returns: reading an escaped text back gives the
/// text without its carriage returns.
pub proof fn law_unescape_escape(s: Seq<char>)
    ensures
        unescape_seq(escape_seq(s)) == without_cr(s),
    decreases s.len(),
{
    if s.len() > 0 {
        let rest = escape_seq(s.drop_first());
        law_unescape_escape(s.drop_first());
        let e = escape_char(s[0]);
        let x = e + rest;
        if e.len() == 2 {
            assert(x[0] == '\\');
            assert(x.skip(2) =~= rest);
        } else if e.len() == 1 {
            assert(x[0] != '\\');
            assert(x.skip(1) =~= rest);
        } else {
            assert(x =~= rest);
        }
    }
}

/// An escaped text holds no line break: no line feed and no carriage return.
pub proof fn law_escape_single_line(s: Seq<char>)
    ensures
        forall|i: int| 0 <= i < escape_seq(s).len() ==> escape_seq(s)[i] != '\n' && escape_seq(s)[i] != '\r',
    decreases s.len(),
{
    if s.len() > 0 {
        law_escape_single_line(s.drop_first());
        let e = escape_char(s[0]);
        let rest = escape_seq(s.drop_first());
        assert forall|i: int| 0 <= i < escape_seq(s).len() implies escape_seq(s)[i] != '\n' && escape_seq(s)[i] != '\r' by {
            if i >= e.len() {
                assert(escape_seq(s)[i] == rest[i - e.len()]);
            }
        }
    }
}

/// Whether every backslash of `e`, read from left to right, starts one of the four escape
/// pairs `\\`, `\;`, `\,` and `\n`.
pub open spec fn well_escaped(e: Seq<char>) -> bool
    decreases e.len(),
{
    if e.len() == 0 {
        true
    } else if e[0] == '\\' {
        &&& e.len() >= 2
        &&& (e[1] == '\\' || e[1] == ';' || e[1] == ',' || e[1] == 'n')
        &&& well_escaped(e.skip(2))
    } else {
        well_escaped(e.skip(1))
    }
}

/// In an escaped text every backslash starts one of the four escape pairs.
pub proof fn law_escape_pairs(s: Seq<char>)
    ensures
        well_escaped(escape_seq(s)),
    decreases s.len(),
{
    if s.len() > 0 {
        let rest = escape_seq(s.drop_first());
        law_escape_pairs(s.drop_first());
        let e = escape_char(s[0]);
        let x = e + rest;
        assert(escape_seq(s) == x);
        if e.len() == 2 {
            assert(x[0] == '\\');
            assert(x.skip(2) =~= rest);
        } else if e.len() == 1 {
            assert(x[0] != '\\');
            assert(x.skip(1) =~= rest);
        } else {
            assert(x =~= rest);
        }
    }
}

/// The number of bytes of `c` in UTF-8 (`char::len_utf8`).
pub open spec fn utf8_len(c: char) -> int {
    if (c as u32) < 0x80 {
        1
    } else if (c as u32) < 0x800 {
        2
    } else if (c as u32) < 0x10000 {
        3
    } else {
        4
    }
}

/// The number of bytes of `c` in UTF-8.
pub fn len_utf8(c: char) -> (n: usize)
    ensures
        n == utf8_len(c),
{
    if (c as u32) < 0x80 {
        1
    } else if (c as u32) < 0x800 {
        2
    } else if (c as u32) < 0x10000 {
        3
    } else {
        4
    }
}

/// Folding a line, character by character: the folded text so far, and the bytes of
/// its last physical line. A character that would make the physical line longer than
/// 75 bytes starts a new one, introduced by a line break and a space.
pub open spec fn fold_state(s: Seq<char>) -> (Seq<char>, int)
    decreases s.len(),
{
    if s.len() == 0 {
        (Seq::empty(), 0)
    } else {
        let (out, cur) = fold_state(s.drop_last());
        let c = s.last();
        if cur + utf8_len(c) > 75 {
            (out + seq!['\r', '\n', ' ', c], 1 + utf8_len(c))
        } else {
            (out.push(c), cur + utf8_len(c))
        }
    }
}

/// The folded form of a line.
pub open spec fn fold_seq(s: Seq<char>) -> Seq<char> {
    fold_state(s).0
}

/// Folds a line longer than 75 bytes into physical lines of at most 75 bytes, each after
/// the first introduced by a line break and a space.
pub fn fold_line(line: &str) -> (out: String)
    ensures
        out@ == fold_seq(line@),
{
    let v = chars_of(line);
    let mut folded = String::new();
    let mut current_len: usize = 0;
    let mut i: usize = 0;
    while i < v.len()
        invariant
            i <= v.len(),
            (folded@, current_len as int) == fold_state(v@.take(i as int)),
            current_len <= 75,
        decreases v.len() - i,
    {
        let c = v[i];
        let n = len_utf8(c);
        proof {
            assert(v@.take(i + 1).drop_last() == v@.take(i as int));
            assert(v@.take(i + 1).last() == c);
        }
        if current_len + n > MAX_LINE_BYTES {
            push_char(&mut folded, '\r');
            push_char(&mut folded, '\n');
            push_char(&mut folded, ' ');
            current_len = 1;
        }
        push_char(&mut folded, c);
        current_len += n;
        proof {
            assert(folded@ =~= fold_state(v@.take(i + 1)).0);
        }
        i += 1;
    }
    proof {
        assert(v@.take(v@.len() as int) == v@);
    }
    folded
}

/// The folded text with its folds removed: every line break followed by a space is
/// dropped.
pub open spec fn unfold_seq(s: Seq<char>) -> Seq<char>
    decreases s.len(),
{
    if s.len() == 0 {
        Seq::empty()
    } else if s.len() >= 3 && s[s.len() - 3] == '\r' && s[s.len() - 2] == '\n' && s[s.len() - 1] == ' ' {
        unfold_seq(s.take(s.len() - 3))
    } else {
        unfold_seq(s.drop_last()).push(s.last())
    }
}

/// The bytes of the last segment of `s`: those after its last carriage return and line
/// feed pair.
pub open spec fn last_segment_bytes(s: Seq<char>) -> int
    decreases s.len(),
{
    if s.len() == 0 {
        0
    } else if s.len() >= 2 && s.last() == '\n' && s[s.len() - 2] == '\r' {
        0
    } else {
        last_segment_bytes(s.drop_last()) + utf8_len(s.last())
    }
}

/// No carriage return in `s`.
pub open spec fn no_cr(s: Seq<char>) -> bool {
    forall|i: int| 0 <= i < s.len() ==> s[i] != '\r'
}

/// No line break at all in `s`.
pub open spec fn no_breaks(s: Seq<char>) -> bool {
    forall|i: int| 0 <= i < s.len() ==> s[i] != '\r' && s[i] != '\n'
}

/// Every segment of `s` between carriage return and line feed pairs, up to each carriage
/// return and at the end, has at most 75 bytes.
pub open spec fn segments_within_limit(s: Seq<char>) -> bool {
    &&& last_segment_bytes(s) <= 75
    &&& forall|i: int| 0 <= i < s.len() && s[i] == '\r' ==> last_segment_bytes(#[trigger] s.take(i)) <= 75
}

/// Every carriage return of `s` starts a fold: a line feed and a space follow it, and
/// then more text.
pub open spec fn returns_start_folds(s: Seq<char>) -> bool {
    forall|i: int| 0 <= i < s.len() && #[trigger] s[i] == '\r' ==> i + 3 < s.len()
        && s[i + 1] == '\n' && s[i + 2] == ' '
}

/// Every line feed of `s` ends a fold: a carriage return precedes it and a space follows.
pub open spec fn feeds_end_folds(s: Seq<char>) -> bool {
    forall|i: int| 0 <= i < s.len() && #[trigger] s[i] == '\n' ==> 0 < i
        && s[i - 1] == '\r' && i + 1 < s.len() && s[i + 1] == ' '
}

proof fn lemma_fold_state(s: Seq<char>)
    requires
        no_cr(s),
    ensures
        fold_state(s).1 == last_segment_bytes(fold_state(s).0),
        0 <= fold_state(s).1 <= 75,
        segments_within_limit(fold_state(s).0),
        unfold_seq(fold_state(s).0) == s,
        returns_start_folds(fold_state(s).0),
        s.len() > 0 ==> fold_state(s).0.len() > 0 && fold_state(s).0.last() == s.last(),
        no_breaks(s) ==> feeds_end_folds(fold_state(s).0),
    decreases s.len(),
{
    if s.len() > 0 {
        let pre = s.drop_last();
        assert(no_cr(pre)) by {
            assert forall|i: int| 0 <= i < pre.len() implies pre[i] != '\r' by {
                assert(pre[i] == s[i]);
            }
        }
        if no_breaks(s) {
            assert forall|i: int| 0 <= i < pre.len() implies pre[i] != '\r' && pre[i] != '\n' by {
                assert(pre[i] == s[i]);
            }
        }
        lemma_fold_state(pre);
        let (out, cur) = fold_state(pre);
        let c = s.last();
        assert(c != '\r');
        let n = utf8_len(c);
        if cur + n > 75 {
            let brk = out + seq!['\r', '\n', ' '];
            let o2 = brk.push(c);
            assert(out + seq!['\r', '\n', ' ', c] =~= o2);
            assert(o2.drop_last() == brk);
            assert(brk.take(brk.len() - 3) =~= out);
            assert(last_segment_bytes(brk.drop_last()) == 0) by {
                assert(brk.drop_last().last() == '\n');
                assert(brk.drop_last()[brk.drop_last().len() - 2] == '\r');
            }
            assert(brk.drop_last().drop_last() =~= out.push('\r'));
            assert(last_segment_bytes(brk) == 1);
            assert(o2[o2.len() - 2] == ' ');
            assert(last_segment_bytes(o2) == 1 + n);
            assert(unfold_seq(o2) == unfold_seq(brk).push(c));
            assert(unfold_seq(brk) == unfold_seq(out));
            assert(s =~= pre.push(c));
            assert forall|i: int| 0 <= i < o2.len() && o2[i] == '\r' implies last_segment_bytes(#[trigger] o2.take(i)) <= 75 by {
                if i < out.len() {
                    assert(o2.take(i) =~= out.take(i));
                    assert(out[i] == o2[i]);
                } else {
                    assert(i == out.len());
                    assert(o2.take(i) =~= out);
                }
            }
            assert forall|i: int| 0 <= i < o2.len() && #[trigger] o2[i] == '\r' implies i + 3 < o2.len()
                && o2[i + 1] == '\n' && o2[i + 2] == ' ' by {
                if i < out.len() {
                    assert(out[i] == o2[i]);
                }
            }
            if no_breaks(s) {
                assert forall|i: int| 0 <= i < o2.len() && #[trigger] o2[i] == '\n' implies 0 < i && o2[i - 1] == '\r'
                    && i + 1 < o2.len() && o2[i + 1] == ' ' by {
                    if i < out.len() {
                        assert(out[i] == o2[i]);
                        assert(out[i - 1] == o2[i - 1]);
                        assert(out[i + 1] == o2[i + 1]) by {
                            if i + 1 >= out.len() {
                                assert(out.last() == s.drop_last().last());
                            }
                        }
                    }
                }
            }
        } else {
            let o2 = out.push(c);
            assert(o2.drop_last() == out);
            assert(s =~= pre.push(c));
            if out.len() > 0 && out.last() == '\r' {
                assert(out[out.len() - 1] == '\r');
                assert(false);
            }
            assert(last_segment_bytes(o2) == cur + n);
            if o2.len() >= 3 && o2[o2.len() - 3] == '\r' {
                assert(out[o2.len() - 3] == '\r');
                assert(false);
            }
            assert(unfold_seq(o2) == unfold_seq(out).push(c));
            assert forall|i: int| 0 <= i < o2.len() && o2[i] == '\r' implies last_segment_bytes(#[trigger] o2.take(i)) <= 75 by {
                assert(i < out.len());
                assert(o2.take(i) =~= out.take(i));
                assert(out[i] == o2[i]);
            }
            assert forall|i: int| 0 <= i < o2.len() && #[trigger] o2[i] == '\r' implies i + 3 < o2.len()
                && o2[i + 1] == '\n' && o2[i + 2] == ' ' by {
                assert(i < out.len());
                assert(out[i] == o2[i]);
            }
            if no_breaks(s) {
                assert forall|i: int| 0 <= i < o2.len() && #[trigger] o2[i] == '\n' implies 0 < i && o2[i - 1] == '\r'
                    && i + 1 < o2.len() && o2[i + 1] == ' ' by {
                    assert(i < out.len());
                    assert(out[i] == o2[i]);
                    assert(out[i - 1] == o2[i - 1]);
                    if i + 1 < out.len() {
                        assert(out[i + 1] == o2[i + 1]);
                    }
                }
            }
        }
    } else {
        assert(fold_state(s).0 =~= Seq::<char>::empty());
    }
}

/// A line of at most 75 bytes is not folded.
proof fn lemma_fold_short(s: Seq<char>)
    requires
        crate::text::utf8_bytes(s) <= 75,
    ensures
        fold_state(s) == (s, crate::text::utf8_bytes(s)),
    decreases s.len(),
{
    if s.len() > 0 {
        let pre = s.drop_last();
        assert(utf8_len(s.last()) >= 1);
        lemma_fold_short(pre);
        assert(pre.push(s.last()) =~= s);
    } else {
        assert(s =~= Seq::<char>::empty());
    }
}

/// Folding a line without carriage returns loses nothing: removing the folds gives the
/// line back; every segment of the folded text between carriage return and line feed
/// pairs has at most 75 bytes; every carriage return starts a fold, so that each segment
/// after the first starts with a space; in a line without any line break, every line
/// feed of the folded text ends a fold; and a line of at most 75 bytes comes back
/// unchanged.
pub proof fn law_fold_line(s: Seq<char>)
    requires
        no_cr(s),
    ensures
        unfold_seq(fold_seq(s)) == s,
        segments_within_limit(fold_seq(s)),
        returns_start_folds(fold_seq(s)),
        no_breaks(s) ==> feeds_end_folds(fold_seq(s)),
        crate::text::utf8_bytes(s) <= 75 ==> fold_seq(s) == s,
{
    lemma_fold_state(s);
    if crate::text::utf8_bytes(s) <= 75 {
        lemma_fold_short(s);
    }
}

/// The decimal digit `d`, for `d` from 0 to 9.
pub open spec fn digit(d: int) -> char {
    if d == 0 { '0' } else if d == 1 { '1' } else if d == 2 { '2' } else if d == 3 { '3' }
    else if d == 4 { '4' } else if d == 5 { '5' } else if d == 6 { '6' } else if d == 7 { '7' }
    else if d == 8 { '8' } else { '9' }
}

/// The decimal digit `d`.
pub fn digit_char(d: u8) -> (c: char)
    requires
        d < 10,
    ensures
        c == digit(d as int),
{
    if d == 0 { '0' } else if d == 1 { '1' } else if d == 2 { '2' } else if d == 3 { '3' }
    else if d == 4 { '4' } else if d == 5 { '5' } else if d == 6 { '6' } else if d == 7 { '7' }
    else if d == 8 { '8' } else { '9' }
}

/// `n` in two decimal digits, padded with a zero.
pub open spec fn two_digits(n: int) -> Seq<char> {
    seq![digit(n / 10), digit(n % 10)]
}

/// `n` in four decimal digits, padded with zeros.
pub open spec fn four_digits(n: int) -> Seq<char> {
    seq![digit(n / 1000), digit(n / 100 % 10), digit(n / 10 % 10), digit(n % 10)]
}

/// A year as the `[year]` component writes it: four digits, after a minus sign when
/// the year is negative.
pub open spec fn year_text(y: int) -> Seq<char> {
    if y < 0 { seq!['-'] + four_digits(-y) } else { four_digits(y) }
}

/// A UTC date and time in the basic iCalendar form `YYYYMMDDTHHMMSSZ`.
pub open spec fn ics_datetime_seq(f: (int, int, int, int, int, int)) -> Seq<char> {
    year_text(f.0) + two_digits(f.1) + two_digits(f.2) + seq!['T'] + two_digits(f.3) + two_digits(f.4)
        + two_digits(f.5) + seq!['Z']
}

/// The iCalendar form of the instant `t`, shown in UTC.
pub open spec fn ics_datetime_of(t: Timestamp) -> Seq<char> {
    ics_datetime_seq(local_fields_of(t.unix_nanos as int, 0))
}

/// Whether the instant `t` can be shown in UTC.
pub open spec fn utc_showable(t: Timestamp) -> bool {
    MIN_UNIX_NANOS <= t.unix_nanos <= MAX_UNIX_NANOS
}

fn push_two_digits(out: &mut String, n: u8)
    requires
        n < 100,
    ensures
        final(out)@ == old(out)@ + two_digits(n as int),
{
    push_char(out, digit_char(n / 10));
    push_char(out, digit_char(n % 10));
}

/// Writes the instant `t` in UTC as `YYYYMMDDTHHMMSSZ`.
pub fn format_ics_datetime(t: Timestamp) -> (out: String)
    requires
        utc_showable(t),
    ensures
        out@ == ics_datetime_of(t),
{
    let f = local_date_time(Timestamp { unix_nanos: t.unix_nanos, offset_seconds: 0 });
    let mut out = String::new();
    let y: i32 = f.year;
    let a: u32 = if y < 0 {
        push_char(&mut out, '-');
        (-y) as u32
    } else {
        y as u32
    };
    push_char(&mut out, digit_char((a / 1000) as u8));
    push_char(&mut out, digit_char((a / 100 % 10) as u8));
    push_char(&mut out, digit_char((a / 10 % 10) as u8));
    push_char(&mut out, digit_char((a % 10) as u8));
    push_two_digits(&mut out, f.month);
    push_two_digits(&mut out, f.day);
    push_char(&mut out, 'T');
    push_two_digits(&mut out, f.hour);
    push_two_digits(&mut out, f.minute);
    push_two_digits(&mut out, f.second);
    push_char(&mut out, 'Z');
    proof {
        assert(out@ =~= ics_datetime_of(t));
    }
    out
}

/// A property line: the name with its colon, then the value.
pub open spec fn prop(name: Seq<char>, value: Seq<char>) -> Seq<char> {
    name + value
}

/// The lines of one event, from `BEGIN:VEVENT` to `END:VEVENT`; the optional
/// description, end, location and address lines appear only when present.
pub open spec fn event_line_seqs(item: SsufidCalendar) -> Seq<Seq<char>> {
    seq![
        "BEGIN:VEVENT"@,
        prop("UID:"@, item.id@),
        prop("SUMMARY:"@, escape_seq(item.title@)),
        prop("DTSTAMP:"@, ics_datetime_of(item.starts_at)),
        prop("DTSTART:"@, ics_datetime_of(item.starts_at)),
    ] + (match item.description {
        Some(d) => seq![prop("DESCRIPTION:"@, escape_seq(d@))],
        None => Seq::empty(),
    }) + (match item.ends_at {
        Some(t) => seq![prop("DTEND:"@, ics_datetime_of(t))],
        None => Seq::empty(),
    }) + (match item.location {
        Some(l) => seq![prop("LOCATION:"@, escape_seq(l@))],
        None => Seq::empty(),
    }) + (match item.url {
        Some(u) => seq![prop("URL:"@, u@)],
        None => Seq::empty(),
    }) + seq!["END:VEVENT"@]
}

/// The lines of the events `items`, in order.
pub open spec fn events_line_seqs(items: Seq<SsufidCalendar>) -> Seq<Seq<char>>
    decreases items.len(),
{
    if items.len() == 0 {
        Seq::empty()
    } else {
        events_line_seqs(items.drop_last()) + event_line_seqs(items.last())
    }
}

/// The lines of a calendar: its header, its events' lines, and `END:VCALENDAR`.
pub open spec fn calendar_line_seqs(site: SsufidCalendarSiteData) -> Seq<Seq<char>> {
    seq![
        "BEGIN:VCALENDAR"@,
        "VERSION:2.0"@,
        "CALSCALE:GREGORIAN"@,
        prop("PRODID:"@, PROD_ID@),
        prop("X-WR-CALNAME:"@, escape_seq(site.title@)),
        prop("X-WR-CALDESC:"@, escape_seq(site.description@)),
        prop("URL:"@, site.source@),
    ] + events_line_seqs(site.items@) + seq!["END:VCALENDAR"@]
}

/// Lines written out: each folded and ended by a carriage return and a line feed.
pub open spec fn crlf_text(lines: Seq<Seq<char>>) -> Seq<char>
    decreases lines.len(),
{
    if lines.len() == 0 {
        Seq::empty()
    } else {
        crlf_text(lines.drop_last()) + fold_seq(lines.last()) + seq!['\r', '\n']
    }
}

/// Whether every instant of the event can be shown in UTC.
pub open spec fn event_showable(item: SsufidCalendar) -> bool {
    &&& utc_showable(item.starts_at)
    &&& item.ends_at matches Some(t) ==> utc_showable(t)
}

fn push_line(lines: &mut Vec<String>, name: &str, value: &str)
    ensures
        final(lines)@.len() == old(lines)@.len() + 1,
        forall|i: int| 0 <= i < old(lines)@.len() ==> final(lines)@[i] == old(lines)@[i],
        final(lines)@.last()@ == prop(name@, value@),
{
    let mut l = String::from_str(name);
    l.append(value);
    lines.push(l);
}

/// The views of a list of lines.
pub open spec fn line_views(v: Seq<String>) -> Seq<Seq<char>> {
    v.map_values(|s: String| s@)
}

/// The lines of one event.
pub fn event_lines(item: &SsufidCalendar) -> (lines: Vec<String>)
    requires
        event_showable(*item),
    ensures
        line_views(lines@) == event_line_seqs(*item),
{
    let mut lines: Vec<String> = Vec::new();
    lines.push(String::from_str("BEGIN:VEVENT"));
    push_line(&mut lines, "UID:", item.id.as_str());
    let title = escape_text(item.title.as_str());
    push_line(&mut lines, "SUMMARY:", title.as_str());
    let start = format_ics_datetime(item.starts_at);
    push_line(&mut lines, "DTSTAMP:", start.as_str());
    push_line(&mut lines, "DTSTART:", start.as_str());
    let ghost head = line_views(lines@);
    if let Some(description) = &item.description {
        let d = escape_text(description.as_str());
        push_line(&mut lines, "DESCRIPTION:", d.as_str());
    }
    let ghost with_description = line_views(lines@);
    if let Some(ends_at) = item.ends_at {
        let e = format_ics_datetime(ends_at);
        push_line(&mut lines, "DTEND:", e.as_str());
    }
    let ghost with_end = line_views(lines@);
    if let Some(location) = &item.location {
        let l = escape_text(location.as_str());
        push_line(&mut lines, "LOCATION:", l.as_str());
    }
    let ghost with_location = line_views(lines@);
    if let Some(url) = &item.url {
        push_line(&mut lines, "URL:", url.as_str());
    }
    let ghost with_url = line_views(lines@);
    lines.push(String::from_str("END:VEVENT"));
    proof {
        assert(head =~= seq![
            "BEGIN:VEVENT"@,
            prop("UID:"@, item.id@),
            prop("SUMMARY:"@, escape_seq(item.title@)),
            prop("DTSTAMP:"@, ics_datetime_of(item.starts_at)),
            prop("DTSTART:"@, ics_datetime_of(item.starts_at)),
        ]);
        assert(with_description =~= head + (match item.description {
            Some(d) => seq![prop("DESCRIPTION:"@, escape_seq(d@))],
            None => Seq::empty(),
        }));
        assert(with_end =~= with_description + (match item.ends_at {
            Some(t) => seq![prop("DTEND:"@, ics_datetime_of(t))],
            None => Seq::empty(),
        }));
        assert(with_location =~= with_end + (match item.location {
            Some(l) => seq![prop("LOCATION:"@, escape_seq(l@))],
            None => Seq::empty(),
        }));
        assert(with_url =~= with_location + (match item.url {
            Some(u) => seq![prop("URL:"@, u@)],
            None => Seq::empty(),
        }));
        assert(line_views(lines@) =~= with_url + seq!["END:VEVENT"@]);
    }
    lines
}

/// Whether the line `line` is the property `name` whose value is the escaped form of
/// `text`: it holds no line break, and its value reads back as `text` without carriage
/// returns.
pub open spec fn escaped_property(line: Seq<char>, name: Seq<char>, text: Seq<char>) -> bool {
    &&& line == name + escape_seq(text)
    &&& no_breaks(line)
    &&& unescape_seq(line.skip(name.len() as int)) == without_cr(text)
}

proof fn lemma_escaped_property(name: Seq<char>, text: Seq<char>)
    requires
        no_breaks(name),
    ensures
        escaped_property(name + escape_seq(text), name, text),
{
    law_escape_single_line(text);
    law_unescape_escape(text);
    let line = name + escape_seq(text);
    assert(line.skip(name.len() as int) =~= escape_seq(text));
    assert forall|i: int| 0 <= i < line.len() implies line[i] != '\r' && line[i] != '\n' by {
        if i >= name.len() {
            assert(line[i] == escape_seq(text)[i - name.len()]);
        }
    }
}

/// The texts of an event are written escaped, each on a line of its own: the summary is
/// the third line, the description (when there is one) the sixth, and the place (when
/// there is one) comes after the description and end lines that are present; none of
/// these lines holds a line break, and each value reads back as its text without
/// carriage returns.
pub proof fn law_event_text_lines(item: SsufidCalendar)
    ensures
        escaped_property(event_line_seqs(item)[2], "SUMMARY:"@, item.title@),
        item.description matches Some(d) ==> escaped_property(event_line_seqs(item)[5], "DESCRIPTION:"@, d@),
        item.location matches Some(l) ==> escaped_property(
            event_line_seqs(item)[5 + (if item.description is Some { 1int } else { 0 }) + (if item.ends_at is Some { 1int } else { 0 })],
            "LOCATION:"@,
            l@,
        ),
{
    reveal_strlit("SUMMARY:");
    reveal_strlit("DESCRIPTION:");
    reveal_strlit("LOCATION:");
    let lines = event_line_seqs(item);
    lemma_escaped_property("SUMMARY:"@, item.title@);
    assert(lines[2] == prop("SUMMARY:"@, escape_seq(item.title@)));
    let nd: int = if item.description is Some { 1 } else { 0 };
    let ne: int = if item.ends_at is Some { 1 } else { 0 };
    if let Some(d) = item.description {
        lemma_escaped_property("DESCRIPTION:"@, d@);
        assert(lines[5] == prop("DESCRIPTION:"@, escape_seq(d@)));
    }
    if let Some(l) = item.location {
        lemma_escaped_property("LOCATION:"@, l@);
        assert(lines[5 + nd + ne] == prop("LOCATION:"@, escape_seq(l@)));
    }
}

fn append_lines(lines: &mut Vec<String>, more: Vec<String>)
    ensures
        line_views(final(lines)@) == line_views(old(lines)@) + line_views(more@),
{
    let ghost start = line_views(lines@);
    let ghost src = more@;
    for l in it: more
        invariant
            it.seq() == src,
            line_views(lines@) == start + line_views(src.take(it.index() as int)),
    {
        let ghost before = lines@;
        let ghost lv = l@;
        proof {
            assert(src.take(it.index() + 1) == src.take(it.index() as int).push(l));
            assert(line_views(src.take(it.index() + 1)) =~= line_views(src.take(it.index() as int)).push(lv));
        }
        lines.push(l);
        proof {
            assert(line_views(lines@) =~= line_views(before).push(lv));
        }
    }
    proof {
        assert(src.take(src.len() as int) == src);
    }
}

/// The calendar as iCalendar text: its lines, each folded and ended by a carriage return
/// and a line feed.
pub fn to_ics(site: &SsufidCalendarSiteData) -> (out: String)
    requires
        forall|i: int| 0 <= i < site.items@.len() ==> event_showable(#[trigger] site.items@[i]),
    ensures
        out@ == crlf_text(calendar_line_seqs(*site)),
{
    let mut lines: Vec<String> = Vec::new();
    lines.push(String::from_str("BEGIN:VCALENDAR"));
    lines.push(String::from_str("VERSION:2.0"));
    lines.push(String::from_str("CALSCALE:GREGORIAN"));
    push_line(&mut lines, "PRODID:", PROD_ID);
    let title = escape_text(site.title.as_str());
    push_line(&mut lines, "X-WR-CALNAME:", title.as_str());
    let description = escape_text(site.description.as_str());
    push_line(&mut lines, "X-WR-CALDESC:", description.as_str());
    push_line(&mut lines, "URL:", site.source.as_str());
    let ghost header = line_views(lines@);
    assert(header =~= seq![
        "BEGIN:VCALENDAR"@,
        "VERSION:2.0"@,
        "CALSCALE:GREGORIAN"@,
        prop("PRODID:"@, PROD_ID@),
        prop("X-WR-CALNAME:"@, escape_seq(site.title@)),
        prop("X-WR-CALDESC:"@, escape_seq(site.description@)),
        prop("URL:"@, site.source@),
    ]);
    let mut i: usize = 0;
    while i < site.items.len()
        invariant
            i <= site.items.len(),
            forall|j: int| 0 <= j < site.items@.len() ==> event_showable(#[trigger] site.items@[j]),
            line_views(lines@) == header + events_line_seqs(site.items@.take(i as int)),
        decreases site.items.len() - i,
    {
        let more = event_lines(&site.items[i]);
        append_lines(&mut lines, more);
        proof {
            assert(site.items@.take(i + 1).drop_last() == site.items@.take(i as int));
            assert(site.items@.take(i + 1).last() == site.items@[i as int]);
            assert(events_line_seqs(site.items@.take(i + 1)) == events_line_seqs(site.items@.take(i as int)) + event_line_seqs(site.items@[i as int]));
            assert(line_views(lines@) =~= header + events_line_seqs(site.items@.take(i + 1)));
        }
        i += 1;
    }
    let ghost body = line_views(lines@);
    lines.push(String::from_str("END:VCALENDAR"));
    proof {
        assert(line_views(lines@) =~= body.push("END:VCALENDAR"@));
        assert(site.items@.take(site.items@.len() as int) == site.items@);
        assert(line_views(lines@) =~= calendar_line_seqs(*site));
    }
    let ghost all = line_views(lines@);
    let mut out = String::new();
    let mut k: usize = 0;
    while k < lines.len()
        invariant
            k <= lines.len(),
            all == line_views(lines@),
            out@ == crlf_text(all.take(k as int)),
        decreases lines.len() - k,
    {
        let folded = fold_line(lines[k].as_str());
        out.append(folded.as_str());
        out.append("\r\n");
        proof {
            reveal_strlit("\r\n");
            assert(all.take(k + 1).drop_last() == all.take(k as int));
            assert(all.take(k + 1).last() == lines@[k as int]@);
            assert(out@ =~= crlf_text(all.take(k + 1)));
        }
        k += 1;
    }
    proof {
        assert(all.take(all.len() as int) == all);
    }
    out
}

impl SsufidCalendarSiteData {
    /// The calendar as iCalendar text.
    pub fn to_ics(&self) -> (out: String)
        requires
            forall|i: int| 0 <= i < self.items@.len() ==> event_showable(#[trigger] self.items@[i]),
        ensures
            out@ == crlf_text(calendar_line_seqs(*self)),
    {
        to_ics(self)
    }
}

} // verus!
