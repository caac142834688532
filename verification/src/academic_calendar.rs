//! The university's academic calendar: reading its yearly pages into calendar events.

use vstd::prelude::*;
use crate::datetime::{NANOS_PER_DAY, CivilDate, Timestamp, LocalDateTime, KST_OFFSET_SECONDS, is_valid_date, is_calendar_date, timestamp_at, instant_of_local, local_fields_of, local_date_time};
use crate::ics::{year_text, two_digits, digit_char};
use crate::html::{url_with_pairs, append_query_pairs, pair_views, document_matches, fragment_matches, fragment_text_nodes, fragment_first_attr, joined_url, join_space, select_in_document, select_in_fragment, fragment_texts, first_attr_in_fragment, join_url, join_with_space};
use crate::calendar::SsufidCalendar;
use crate::post::opt_view;
use crate::order::{is_stable_sort_of, event_le, sort_events};
use crate::entry_map::{entry_values, event_entries, event_map_new, event_map_insert, event_map_into_values};
use crate::merge::collect_events;
use crate::error::{PluginError, concat};
use crate::text::{int_text, int_to_text, chars_of, string_of, push_char, is_ws, trim, trim_bounds, trim_str, collapse_ws, collapse_state, is_whitespace, parse_unsigned, parse_unsigned_text, string_of_range, first_index_of, lemma_first_index_of, copy_range, trimmed_copy};

verus! {

/// The academic calendar plugin.
pub struct SsuAcademicCalendarPlugin;

/// The plugin's identifier.
pub const IDENTIFIER: &'static str = "ssu-academic-calendar";
/// The calendar's title.
pub const TITLE: &'static str = "숭실대학교 학사일정";
/// The calendar's description.
pub const DESCRIPTION: &'static str = "숭실대학교 공식 학사일정 페이지의 학사 일정을 캘린더 형식으로 제공합니다.";
/// The address of the calendar pages.
pub const BASE_URL: &'static str = "https://ssu.ac.kr/%ED%95%99%EC%82%AC/%ED%95%99%EC%82%AC%EC%9D%BC%EC%A0%95/";

/// Removing parenthesized text, character by character: the text kept so far, and how
/// many parentheses are open. A closing parenthesis with none open is dropped.
pub open spec fn strip_state(s: Seq<char>) -> (Seq<char>, int)
    decreases s.len(),
{
    if s.len() == 0 {
        (Seq::empty(), 0)
    } else {
        let (out, depth) = strip_state(s.drop_last());
        let c = s.last();
        if c == '(' {
            (out, depth + 1)
        } else if c == ')' {
            (out, if depth > 0 { depth - 1 } else { 0 })
        } else if depth == 0 {
            (out.push(c), depth)
        } else {
            (out, depth)
        }
    }
}

/// `s` without its parenthesized parts and its parentheses.
pub open spec fn strip_parens(s: Seq<char>) -> Seq<char> {
    strip_state(s).0
}

impl SsuAcademicCalendarPlugin {
    /// The text without its parenthesized parts.
    pub fn strip_parenthesized(text: &str) -> (out: String)
        ensures
            out@ == strip_parens(text@),
    {
        let v = chars_of(text);
        let mut depth: usize = 0;
        let mut out = String::new();
        let mut i: usize = 0;
        while i < v.len()
            invariant
                i <= v.len(),
                depth <= i,
                (out@, depth as int) == strip_state(v@.take(i as int)),
            decreases v.len() - i,
        {
            let c = v[i];
            proof {
                assert(v@.take(i + 1).drop_last() == v@.take(i as int));
                assert(v@.take(i + 1).last() == c);
            }
            if c == '(' {
                depth += 1;
            } else if c == ')' {
                if depth > 0 {
                    depth -= 1;
                }
            } else if depth == 0 {
                push_char(&mut out, c);
            }
            i += 1;
        }
        proof {
            assert(v@.take(v@.len() as int) == v@);
        }
        out
    }
}

/// Whether `c` is a dash or wave that separates the two ends of a date range.
pub open spec fn is_range_mark(c: char) -> bool {
    c == '–' || c == '—' || c == '－' || c == '〜'
}

/// `s` with every range mark written as `~`.
pub open spec fn unify_range_marks(s: Seq<char>) -> Seq<char> {
    s.map_values(|c: char| if is_range_mark(c) { '~' } else { c })
}

/// The date text made uniform: parenthesized parts removed, range marks written as `~`,
/// and white space collapsed.
pub open spec fn normalized_date_text(s: Seq<char>) -> Seq<char> {
    collapse_ws(unify_range_marks(strip_parens(s)))
}

impl SsuAcademicCalendarPlugin {
    /// The words of `s` joined by single spaces.
    pub fn normalize_whitespace(s: &str) -> (out: String)
        ensures
            out@ == collapse_ws(s@),
    {
        let v = chars_of(s);
        let mut out = String::new();
        let mut pending = false;
        let mut i: usize = 0;
        while i < v.len()
            invariant
                i <= v.len(),
                (out@, pending) == collapse_state(v@.take(i as int)),
            decreases v.len() - i,
        {
            let c = v[i];
            proof {
                assert(v@.take(i + 1).drop_last() == v@.take(i as int));
                assert(v@.take(i + 1).last() == c);
            }
            if is_whitespace(c) {
                pending = out.as_str().unicode_len() > 0;
            } else {
                if pending {
                    push_char(&mut out, ' ');
                }
                push_char(&mut out, c);
                pending = false;
            }
            proof {
                assert(out@ =~= collapse_state(v@.take(i + 1)).0);
            }
            i += 1;
        }
        proof {
            assert(v@.take(v@.len() as int) == v@);
        }
        out
    }
}

impl SsuAcademicCalendarPlugin {
    /// Makes a date text uniform (see `normalized_date_text`).
    pub fn normalize_date_text(text: &str) -> (out: String)
        ensures
            out@ == normalized_date_text(text@),
    {
        let stripped = SsuAcademicCalendarPlugin::strip_parenthesized(text);
        let v = chars_of(stripped.as_str());
        let mut w: Vec<char> = Vec::new();
        let mut i: usize = 0;
        while i < v.len()
            invariant
                i <= v.len(),
                w@ == unify_range_marks(v@.take(i as int)),
            decreases v.len() - i,
        {
            let c = v[i];
            if c == '–' || c == '—' || c == '－' || c == '〜' {
                w.push('~');
            } else {
                w.push(c);
            }
            proof {
                assert(w@ =~= unify_range_marks(v@.take(i + 1)));
            }
            i += 1;
        }
        proof {
            assert(v@.take(v@.len() as int) == v@);
        }
        let unified = string_of(&w);
        SsuAcademicCalendarPlugin::normalize_whitespace(unified.as_str())
    }
}

/// The pieces of `s` between the occurrences of `sep`, in order (`str::split`).
pub open spec fn split_on(s: Seq<char>, sep: char) -> Seq<Seq<char>>
    decreases s.len(),
{
    if s.len() == 0 {
        seq![Seq::empty()]
    } else {
        let parts = split_on(s.drop_last(), sep);
        if s.last() == sep {
            parts.push(Seq::empty())
        } else {
            parts.update(parts.len() - 1, parts.last().push(s.last()))
        }
    }
}

proof fn lemma_split_on_nonempty(s: Seq<char>, sep: char)
    ensures
        split_on(s, sep).len() >= 1,
    decreases s.len(),
{
    if s.len() > 0 {
        lemma_split_on_nonempty(s.drop_last(), sep);
    }
}

/// The pieces, trimmed, without those left empty.
pub open spec fn trimmed_nonempty(parts: Seq<Seq<char>>) -> Seq<Seq<char>>
    decreases parts.len(),
{
    if parts.len() == 0 {
        Seq::empty()
    } else if trim(parts.last()).len() == 0 {
        trimmed_nonempty(parts.drop_last())
    } else {
        trimmed_nonempty(parts.drop_last()).push(trim(parts.last()))
    }
}

/// The date tokens of a date text: the pieces of its uniform form between `~` marks,
/// trimmed, without empty ones.
pub open spec fn date_tokens(raw: Seq<char>) -> Seq<Seq<char>> {
    trimmed_nonempty(split_on(normalized_date_text(raw), '~'))
}

/// Splits `s` at every `sep` and keeps the trimmed, non-empty pieces.
pub fn split_trimmed_nonempty(s: &Vec<char>, sep: char) -> (parts: Vec<Vec<char>>)
    ensures
        parts@.map_values(|p: Vec<char>| p@) == trimmed_nonempty(split_on(s@, sep)),
{
    let mut parts: Vec<Vec<char>> = Vec::new();
    let mut cur: Vec<char> = Vec::new();
    let mut i: usize = 0;
    while i < s.len()
        invariant
            i <= s.len(),
            split_on(s@.take(i as int), sep).len() >= 1,
            cur@ == split_on(s@.take(i as int), sep).last(),
            parts@.map_values(|p: Vec<char>| p@) == trimmed_nonempty(split_on(s@.take(i as int), sep).drop_last()),
        decreases s.len() - i,
    {
        let c = s[i];
        let ghost prev = split_on(s@.take(i as int), sep);
        proof {
            assert(s@.take(i + 1).drop_last() == s@.take(i as int));
            assert(s@.take(i + 1).last() == c);
            lemma_split_on_nonempty(s@.take(i as int), sep);
        }
        if c == sep {
            let (lo, hi) = trim_bounds(&cur);
            if lo < hi {
                let mut piece: Vec<char> = Vec::new();
                let mut k = lo;
                while k < hi
                    invariant
                        lo <= k <= hi <= cur.len(),
                        piece@ == cur@.subrange(lo as int, k as int),
                    decreases hi - k,
                {
                    piece.push(cur[k]);
                    proof {
                        assert(piece@ =~= cur@.subrange(lo as int, k + 1));
                    }
                    k += 1;
                }
                parts.push(piece);
            }
            proof {
                let next = split_on(s@.take(i + 1), sep);
                assert(next == prev.push(Seq::empty()));
                assert(next.drop_last() == prev);
                assert(prev == prev.drop_last().push(prev.last()));
                assert(parts@.map_values(|p: Vec<char>| p@) =~= trimmed_nonempty(prev));
            }
            cur = Vec::new();
        } else {
            cur.push(c);
            proof {
                let next = split_on(s@.take(i + 1), sep);
                assert(next == prev.update(prev.len() - 1, prev.last().push(c)));
                assert(next.drop_last() =~= prev.drop_last());
            }
        }
        i += 1;
    }
    proof {
        assert(s@.take(s@.len() as int) == s@);
    }
    let ghost all = split_on(s@, sep);
    let (lo, hi) = trim_bounds(&cur);
    if lo < hi {
        let mut piece: Vec<char> = Vec::new();
        let mut k = lo;
        while k < hi
            invariant
                lo <= k <= hi <= cur.len(),
                piece@ == cur@.subrange(lo as int, k as int),
            decreases hi - k,
        {
            piece.push(cur[k]);
            proof {
                assert(piece@ =~= cur@.subrange(lo as int, k + 1));
            }
            k += 1;
        }
        parts.push(piece);
    }
    proof {
        assert(all == all.drop_last().push(all.last()));
        assert(parts@.map_values(|p: Vec<char>| p@) =~= trimmed_nonempty(all));
    }
    parts
}

/// `s` without its trailing full stops (`trim_end_matches('.')`).
pub open spec fn trim_end_dots(s: Seq<char>) -> Seq<char>
    decreases s.len(),
{
    if s.len() > 0 && s.last() == '.' {
        trim_end_dots(s.drop_last())
    } else {
        s
    }
}

/// A date that may leave out its month.
#[derive(Clone, Copy, Debug, PartialEq, Eq)]
pub struct PartialDate {
    pub month: Option<u8>,
    pub day: u8,
}

/// A date token read as `month.day` or as `day` alone (after trimming it and dropping
/// its trailing full stops), each part an unsigned number below 256.
pub open spec fn partial_date(token: Seq<char>) -> Option<(Option<int>, int)> {
    let t = trim_end_dots(trim(token));
    let i = first_index_of(t, '.');
    if i >= 0 {
        match (parse_unsigned(trim(t.take(i)), 255), parse_unsigned(trim(t.skip(i + 1)), 255)) {
            (Some(m), Some(d)) => Some((Some(m), d)),
            _ => None,
        }
    } else {
        match parse_unsigned(t, 255) {
            Some(d) => Some((None, d)),
            None => None,
        }
    }
}


impl SsuAcademicCalendarPlugin {
    /// Reads a date token as `month.day` or `day` (see `partial_date`).
    pub fn parse_partial_date(token: &str) -> (r: Result<PartialDate, PluginError>)
        ensures
            match r {
                Ok(p) => partial_date(token@) == Some((
                    match p.month { Some(m) => Some(m as int), None => None::<int> },
                    p.day as int,
                )),
                Err(e) => partial_date(token@) is None && (e is Parse),
            },
    {
        let raw = chars_of(token);
        let trimmed = trimmed_copy(&raw);
        let mut end = trimmed.len();
        assert(trimmed@.take(end as int) == trimmed@);
        while end > 0 && trimmed[end - 1] == '.'
            invariant
                end <= trimmed.len(),
                trim_end_dots(trimmed@) == trim_end_dots(trimmed@.take(end as int)),
            decreases end,
        {
            proof {
                assert(trimmed@.take(end as int).drop_last() == trimmed@.take(end - 1));
            }
            end -= 1;
        }
        let t = copy_range(&trimmed, 0, end);
        proof {
            assert(t@ == trimmed@.take(end as int));
            assert(trim_end_dots(t@) == t@);
        }
        let mut i: usize = 0;
        while i < t.len() && t[i] != '.'
            invariant
                i <= t.len(),
                forall|j: int| 0 <= j < i ==> t@[j] != '.',
            decreases t.len() - i,
        {
            i += 1;
        }
        proof {
            lemma_first_index_of(t@, '.');
            let f = first_index_of(t@, '.');
            if i < t.len() {
                assert(f >= 0 && f <= i);
                if f < i {
                    assert(t@[f] != '.');
                }
            } else {
                if f >= 0 {
                    assert(t@[f] != '.');
                }
            }
        }
        if i < t.len() {
            let month_text = trimmed_copy(&copy_range(&t, 0, i));
            let day_text = trimmed_copy(&copy_range(&t, i + 1, t.len()));
            proof {
                assert(t@.take(i as int) == t@.subrange(0, i as int));
                assert(t@.skip(i + 1) == t@.subrange(i + 1, t@.len() as int));
            }
            let month = match parse_unsigned_text(&month_text, 255) {
                Some(m) => m as u8,
                None => {
                    return Err(PluginError::parse(IDENTIFIER, concat("Failed to parse month token: ", token)));
                },
            };
            let day = match parse_unsigned_text(&day_text, 255) {
                Some(d) => d as u8,
                None => {
                    return Err(PluginError::parse(IDENTIFIER, concat("Failed to parse day token: ", token)));
                },
            };
            Ok(PartialDate { month: Some(month), day })
        } else {
            match parse_unsigned_text(&t, 255) {
                Some(d) => Ok(PartialDate { month: None, day: d as u8 }),
                None => Err(PluginError::parse(IDENTIFIER, concat("Failed to parse day token: ", token))),
            }
        }
    }
}

impl SsuAcademicCalendarPlugin {
    /// The date `(year, month, day)`, refused when it is no date.
    pub fn date_from_parts(year: i32, month: u8, day: u8) -> (r: Result<CivilDate, PluginError>)
        ensures
            r is Ok <==> is_valid_date(year as int, month as int, day as int),
            r matches Ok(d) ==> (d == CivilDate { year, month, day }),
            r matches Err(e) ==> (e is Parse),
    {
        if is_calendar_date(year, month, day) {
            Ok(CivilDate { year, month, day })
        } else {
            Err(PluginError::parse(IDENTIFIER, String::from_str("Invalid calendar date")))
        }
    }
}

/// The month after `month` of `year`, as `(year, month)`.
pub open spec fn month_after(year: int, month: int) -> (int, int) {
    if month == 12 { (year + 1, 1) } else { (year, month + 1) }
}

impl SsuAcademicCalendarPlugin {
    /// The month after `month` of `year`.
    pub fn next_month(year: i32, month: u8) -> (r: (i32, u8))
        requires
            month < 255,
            month == 12 ==> year < i32::MAX,
        ensures
            (r.0 as int, r.1 as int) == month_after(year as int, month as int),
    {
        if month == 12 {
            (year + 1, 1)
        } else {
            (year, month + 1)
        }
    }
}

/// The first and last dates of a date text of the calendar for `year`, whose month is
/// `fallback_month` unless the text names one: one date or two separated by `~`. A
/// last date whose month is before the first's falls in the next year; a last date
/// without a month whose day is before the first's falls in the next month.
pub open spec fn event_date_range(raw: Seq<char>, year: int, fallback_month: int) -> Option<((int, int, int), (int, int, int))> {
    let toks = date_tokens(raw);
    if toks.len() == 0 || toks.len() > 2 {
        None
    } else {
        match partial_date(toks[0]) {
            None => None,
            Some((sm, sd)) => {
                let start_month = match sm { Some(m) => m, None => fallback_month };
                if !is_valid_date(year, start_month, sd) {
                    None
                } else if toks.len() == 1 {
                    Some(((year, start_month, sd), (year, start_month, sd)))
                } else {
                    match partial_date(toks[1]) {
                        None => None,
                        Some((em, ed)) => {
                            let (ey, emo) = match em {
                                Some(m) => (if m < start_month { year + 1 } else { year }, m),
                                None => if ed < sd { month_after(year, start_month) } else { (year, start_month) },
                            };
                            if is_valid_date(ey, emo, ed) {
                                Some(((year, start_month, sd), (ey, emo, ed)))
                            } else {
                                None
                            }
                        },
                    }
                }
            },
        }
    }
}

/// Whether the date `a` is no later than the date `b`, each as `(year, month, day)`.
pub open spec fn date_not_after(a: (int, int, int), b: (int, int, int)) -> bool {
    a.0 < b.0 || (a.0 == b.0 && (a.1 < b.1 || (a.1 == b.1 && a.2 <= b.2)))
}

/// An event never ends before it starts unless its text says so: a single date gives
/// an event of that one day; a last date given by its day alone is the first date with
/// that day on or after the first date (in the same month, or else the next one); a
/// last date that names a month other than the first date's falls on or after the first
/// date, within a year of it.
pub proof fn law_event_range_order(raw: Seq<char>, year: int, fallback_month: int)
    ensures
        match event_date_range(raw, year, fallback_month) {
            None => true,
            Some((a, b)) => {
                let toks = date_tokens(raw);
                &&& toks.len() == 1 ==> a == b
                &&& toks.len() == 2 ==> match partial_date(toks[1]) {
                    Some((None, d)) => {
                        &&& date_not_after(a, b)
                        &&& b.2 == d
                        &&& d >= a.2 ==> b.0 == a.0 && b.1 == a.1
                        &&& d < a.2 ==> (b.0, b.1) == month_after(a.0, a.1)
                    },
                    Some((Some(m), d)) => m != a.1 ==> {
                        &&& date_not_after(a, b)
                        &&& b.1 == m && b.2 == d
                        &&& b.0 == a.0 || b.0 == a.0 + 1
                    },
                    None => true,
                }
            },
        },
{
}

/// The fields of a date.
pub open spec fn date_fields(d: CivilDate) -> (int, int, int) {
    (d.year as int, d.month as int, d.day as int)
}

/// The first and last dates of a date text (see `event_date_range`).
pub fn parse_event_date_range(raw_date_text: &str, year: i32, fallback_month: u8) -> (r: Result<(CivilDate, CivilDate), PluginError>)
    ensures
        match r {
            Ok((a, b)) => event_date_range(raw_date_text@, year as int, fallback_month as int) == Some((date_fields(a), date_fields(b))),
            Err(e) => event_date_range(raw_date_text@, year as int, fallback_month as int) is None && (e is Parse),
        },
{
    let normalized = SsuAcademicCalendarPlugin::normalize_date_text(raw_date_text);
    let nv = chars_of(normalized.as_str());
    let parts = split_trimmed_nonempty(&nv, '~');
    let ghost toks = date_tokens(raw_date_text@);
    proof {
        assert(parts@.map_values(|p: Vec<char>| p@) == toks);
        assert(parts@.len() == toks.len());
    }
    if parts.len() == 0 {
        return Err(PluginError::parse(IDENTIFIER, concat("Missing start date in ", raw_date_text)));
    }
    let start_text = string_of(&parts[0]);
    proof {
        assert(start_text@ == toks[0]);
    }
    let start_partial = SsuAcademicCalendarPlugin::parse_partial_date(start_text.as_str())?;
    let start_month = match start_partial.month {
        Some(m) => m,
        None => fallback_month,
    };
    let start_date = SsuAcademicCalendarPlugin::date_from_parts(year, start_month, start_partial.day)?;
    if parts.len() == 1 {
        return Ok((start_date, start_date));
    }
    if parts.len() > 2 {
        return Err(PluginError::parse(IDENTIFIER, concat("Too many range separators in ", raw_date_text)));
    }
    let end_text = string_of(&parts[1]);
    proof {
        assert(end_text@ == toks[1]);
    }
    let end_partial = SsuAcademicCalendarPlugin::parse_partial_date(end_text.as_str())?;
    let (end_year, end_month) = match end_partial.month {
        Some(m) => {
            let y = if m < start_month { year + 1 } else { year };
            (y, m)
        },
        None => {
            if end_partial.day < start_partial.day {
                SsuAcademicCalendarPlugin::next_month(year, start_month)
            } else {
                (year, start_month)
            }
        },
    };
    let end_date = SsuAcademicCalendarPlugin::date_from_parts(end_year, end_month, end_partial.day)?;
    Ok((start_date, end_date))
}

impl SsuAcademicCalendarPlugin {
    /// The first and last instants of an event from its date text: midnight of its first
    /// date and 23:59:59 of its last date, Korea Standard Time.
    pub fn parse_event_dates(raw_date_text: &str, year: i32, fallback_month: u8) -> (r: Result<(Timestamp, Option<Timestamp>), PluginError>)
        ensures
            r is Ok <==> event_date_range(raw_date_text@, year as int, fallback_month as int) is Some,
            r matches Err(e) ==> (e is Parse),
            r matches Ok((s, e)) ==> {
                let (a, b) = event_date_range(raw_date_text@, year as int, fallback_month as int)->0;
                &&& s.offset_seconds == KST_OFFSET_SECONDS
                &&& s.unix_nanos == instant_of_local(a.0, a.1, a.2, 0, 0, 0, KST_OFFSET_SECONDS as int)
                &&& e matches Some(t) && t.offset_seconds == KST_OFFSET_SECONDS
                    && t.unix_nanos == instant_of_local(b.0, b.1, b.2, 23, 59, 59, KST_OFFSET_SECONDS as int)
            },
    {
        let (first, last) = parse_event_date_range(raw_date_text, year, fallback_month)?;
        let starts_at = timestamp_at(first, 0, 0, 0, KST_OFFSET_SECONDS);
        let ends_at = timestamp_at(last, 23, 59, 59, KST_OFFSET_SECONDS);
        Ok((starts_at, Some(ends_at)))
    }
}

/// Whether `c` is alphabetic or numeric in Unicode (`char::is_alphanumeric`).
pub uninterp spec fn unicode_alphanumeric(c: char) -> bool;

/// Whether `c` is an ASCII letter or digit.
pub open spec fn ascii_alphanumeric(c: char) -> bool {
    ('a' <= c && c <= 'z') || ('A' <= c && c <= 'Z') || ('0' <= c && c <= '9')
}

/// Whether `c` is alphabetic or numeric (`char::is_alphanumeric`); among ASCII
/// characters, exactly the letters and digits are.
#[verifier::external_body]
pub(crate) fn is_alphanumeric(c: char) -> (b: bool)
    ensures
        b == unicode_alphanumeric(c),
        (c as u32) < 128 ==> (b == ascii_alphanumeric(c)),
{
    c.is_alphanumeric()
}

/// `c` with an ASCII capital letter made small (`char::to_ascii_lowercase`).
pub open spec fn ascii_lower(c: char) -> char {
    if 'A' <= c && c <= 'Z' { ((c as u32) + 32) as char } else { c }
}

/// `c` with an ASCII capital letter made small.
pub fn to_ascii_lowercase(c: char) -> (r: char)
    ensures
        r == ascii_lower(c),
{
    if 'A' <= c && c <= 'Z' {
        ((c as u8) + 32) as char
    } else {
        c
    }
}

/// Building a slug, character by character: the slug so far, and whether it ends in a
/// separator. Letters and digits are kept, ASCII capitals made small; every run of
/// other characters becomes one `-`.
pub open spec fn slug_state(s: Seq<char>) -> (Seq<char>, bool)
    decreases s.len(),
{
    if s.len() == 0 {
        (Seq::empty(), false)
    } else {
        let (out, last_sep) = slug_state(s.drop_last());
        let c = s.last();
        if unicode_alphanumeric(c) {
            (out.push(ascii_lower(c)), false)
        } else if !last_sep {
            (out.push('-'), true)
        } else {
            (out, true)
        }
    }
}

/// `s` without leading `-`.
pub open spec fn trim_start_dashes(s: Seq<char>) -> Seq<char>
    decreases s.len(),
{
    if s.len() > 0 && s[0] == '-' { trim_start_dashes(s.drop_first()) } else { s }
}

/// `s` without trailing `-`.
pub open spec fn trim_end_dashes(s: Seq<char>) -> Seq<char>
    decreases s.len(),
{
    if s.len() > 0 && s.last() == '-' { trim_end_dashes(s.drop_last()) } else { s }
}

/// The slug of a title: the slug of its collapsed text without leading and trailing
/// `-`, or `event` when nothing is left.
pub open spec fn slug(text: Seq<char>) -> Seq<char> {
    let t = trim_end_dashes(trim_start_dashes(slug_state(collapse_ws(text)).0));
    if t.len() == 0 { "event"@ } else { t }
}

proof fn lemma_trim_start_dashes_skip(s: Seq<char>, i: int)
    requires
        0 <= i <= s.len(),
        forall|j: int| 0 <= j < i ==> s[j] == '-',
    ensures
        trim_start_dashes(s) == trim_start_dashes(s.subrange(i, s.len() as int)),
    decreases i,
{
    if i > 0 {
        lemma_trim_start_dashes_skip(s.drop_first(), i - 1);
        assert(s.drop_first().subrange(i - 1, s.drop_first().len() as int) == s.subrange(i, s.len() as int));
    } else {
        assert(s.subrange(0, s.len() as int) == s);
    }
}

proof fn lemma_trim_end_dashes_skip(s: Seq<char>, k: int)
    requires
        0 <= k <= s.len(),
        forall|j: int| k <= j < s.len() ==> s[j] == '-',
    ensures
        trim_end_dashes(s) == trim_end_dashes(s.subrange(0, k)),
    decreases s.len() - k,
{
    if k < s.len() {
        lemma_trim_end_dashes_skip(s.drop_last(), k);
        assert(s.drop_last().subrange(0, k) == s.subrange(0, k));
    } else {
        assert(s.subrange(0, k) == s);
    }
}

impl SsuAcademicCalendarPlugin {
    /// The slug of a title (see `slug`).
    pub fn slugify(text: &str) -> (out: String)
        ensures
            out@ == slug(text@),
    {
        let normalized = SsuAcademicCalendarPlugin::normalize_whitespace(text);
        let v = chars_of(normalized.as_str());
        let mut w: Vec<char> = Vec::new();
        let mut last_was_sep = false;
        let mut i: usize = 0;
        while i < v.len()
            invariant
                i <= v.len(),
                (w@, last_was_sep) == slug_state(v@.take(i as int)),
            decreases v.len() - i,
        {
            let c = v[i];
            proof {
                assert(v@.take(i + 1).drop_last() == v@.take(i as int));
                assert(v@.take(i + 1).last() == c);
            }
            if is_alphanumeric(c) {
                w.push(to_ascii_lowercase(c));
                last_was_sep = false;
            } else if !last_was_sep {
                w.push('-');
                last_was_sep = true;
            }
            i += 1;
        }
        proof {
            assert(v@.take(v@.len() as int) == v@);
        }
        let mut lo: usize = 0;
        while lo < w.len() && w[lo] == '-'
            invariant
                lo <= w.len(),
                forall|j: int| 0 <= j < lo ==> w@[j] == '-',
            decreases w.len() - lo,
        {
            lo += 1;
        }
        let ghost rest = w@.subrange(lo as int, w@.len() as int);
        proof {
            lemma_trim_start_dashes_skip(w@, lo as int);
        }
        let mut hi: usize = w.len();
        while hi > lo && w[hi - 1] == '-'
            invariant
                lo <= hi <= w.len(),
                forall|j: int| hi <= j < w.len() ==> w@[j] == '-',
            decreases hi,
        {
            hi -= 1;
        }
        proof {
            lemma_trim_end_dashes_skip(rest, hi - lo);
            assert(rest.subrange(0, hi - lo) == w@.subrange(lo as int, hi as int));
        }
        if lo == hi {
            String::from_str("event")
        } else {
            string_of_range(&w, lo, hi)
        }
    }
}

/// A slug is never empty and neither starts nor ends with `-`.
pub proof fn law_slug_shape(text: Seq<char>)
    ensures
        slug(text).len() > 0,
        slug(text)[0] != '-',
        slug(text).last() != '-',
{
    let t = trim_end_dashes(trim_start_dashes(slug_state(collapse_ws(text)).0));
    lemma_trim_dashes_ends(slug_state(collapse_ws(text)).0);
    if t.len() == 0 {
        reveal_strlit("event");
    }
}

proof fn lemma_trim_dashes_ends(s: Seq<char>)
    ensures
        trim_start_dashes(s).len() > 0 ==> trim_start_dashes(s)[0] != '-',
        trim_end_dashes(trim_start_dashes(s)).len() > 0 ==> trim_end_dashes(trim_start_dashes(s))[0] != '-'
            && trim_end_dashes(trim_start_dashes(s)).last() != '-',
    decreases s.len(),
{
    if s.len() > 0 && s[0] == '-' {
        lemma_trim_dashes_ends(s.drop_first());
    } else {
        lemma_trim_end_dashes_prefix(s);
    }
}

proof fn lemma_trim_end_dashes_prefix(s: Seq<char>)
    ensures
        trim_end_dashes(s).len() <= s.len(),
        forall|i: int| 0 <= i < trim_end_dashes(s).len() ==> trim_end_dashes(s)[i] == s[i],
        trim_end_dashes(s).len() > 0 ==> trim_end_dashes(s).last() != '-',
    decreases s.len(),
{
    if s.len() > 0 && s.last() == '-' {
        lemma_trim_end_dashes_prefix(s.drop_last());
        assert forall|i: int| 0 <= i < trim_end_dashes(s).len() implies trim_end_dashes(s)[i] == s[i] by {
            assert(s.drop_last()[i] == s[i]);
        }
    }
}

/// Titles that differ only in white space have the same slug.
pub proof fn law_slug_ignores_white_space(a: Seq<char>, b: Seq<char>)
    requires
        collapse_ws(a) == collapse_ws(b),
    ensures
        slug(a) == slug(b),
{
}

/// A date as `Date`'s `Display` writes it: `YYYY-MM-DD`, the year after a minus sign
/// when negative.
pub open spec fn date_text_of(year: int, month: int, day: int) -> Seq<char> {
    year_text(year) + seq!['-'] + two_digits(month) + seq!['-'] + two_digits(day)
}

/// Writes a date as `YYYY-MM-DD`.
pub fn date_to_text(d: CivilDate) -> (out: String)
    requires
        is_valid_date(d.year as int, d.month as int, d.day as int),
    ensures
        out@ == date_text_of(d.year as int, d.month as int, d.day as int),
{
    let mut out = String::new();
    let a: u32 = if d.year < 0 {
        push_char(&mut out, '-');
        (-d.year) as u32
    } else {
        d.year as u32
    };
    push_char(&mut out, digit_char((a / 1000) as u8));
    push_char(&mut out, digit_char((a / 100 % 10) as u8));
    push_char(&mut out, digit_char((a / 10 % 10) as u8));
    push_char(&mut out, digit_char((a % 10) as u8));
    push_char(&mut out, '-');
    push_char(&mut out, digit_char(d.month / 10));
    push_char(&mut out, digit_char(d.month % 10));
    push_char(&mut out, '-');
    push_char(&mut out, digit_char(d.day / 10));
    push_char(&mut out, digit_char(d.day % 10));
    proof {
        assert(out@ =~= date_text_of(d.year as int, d.month as int, d.day as int));
    }
    out
}

/// The identifier of an event titled `title` that runs from the date `start` to the
/// date `end`, if any: the plugin's identifier, the two dates (`_` for no end) and the
/// title's slug, separated by colons.
pub open spec fn event_id_of(title: Seq<char>, start: (int, int, int), end: Option<(int, int, int)>) -> Seq<char> {
    IDENTIFIER@ + seq![':'] + date_text_of(start.0, start.1, start.2) + seq![':'] + (match end {
        Some(e) => date_text_of(e.0, e.1, e.2),
        None => seq!['_'],
    }) + seq![':'] + slug(title)
}

/// The local date of an instant, in its own offset.
pub open spec fn local_date_of(t: Timestamp) -> (int, int, int) {
    let f = local_fields_of(t.unix_nanos as int, t.offset_seconds as int);
    (f.0, f.1, f.2)
}

/// The identifier of an event from its title and dates (see `event_id_of`).
pub fn event_id_from_dates(title: &str, start: CivilDate, end: Option<CivilDate>) -> (out: String)
    requires
        is_valid_date(start.year as int, start.month as int, start.day as int),
        end matches Some(e) ==> is_valid_date(e.year as int, e.month as int, e.day as int),
    ensures
        out@ == event_id_of(title@, (start.year as int, start.month as int, start.day as int), match end {
            Some(e) => Some((e.year as int, e.month as int, e.day as int)),
            None => None,
        }),
{
    let mut out = String::from_str(IDENTIFIER);
    push_char(&mut out, ':');
    let s = date_to_text(start);
    out.append(s.as_str());
    push_char(&mut out, ':');
    match end {
        Some(e) => {
            let t = date_to_text(e);
            out.append(t.as_str());
        },
        None => {
            push_char(&mut out, '_');
        },
    }
    push_char(&mut out, ':');
    let slug_text = SsuAcademicCalendarPlugin::slugify(title);
    out.append(slug_text.as_str());
    proof {
        assert(out@ =~= event_id_of(title@, (start.year as int, start.month as int, start.day as int), match end {
            Some(e) => Some((e.year as int, e.month as int, e.day as int)),
            None => None,
        }));
    }
    out
}

fn date_of_local(f: LocalDateTime) -> (d: CivilDate)
    ensures
        d == (CivilDate { year: f.year, month: f.month, day: f.day }),
{
    CivilDate { year: f.year, month: f.month, day: f.day }
}

impl SsuAcademicCalendarPlugin {
    /// The identifier of an event titled `title` that starts at `starts_at` and ends at
    /// `ends_at`, if any, from their dates in their own offsets.
    pub fn build_event_id(title: &str, starts_at: Timestamp, ends_at: Option<Timestamp>) -> (out: String)
        requires
            starts_at.valid(),
            ends_at matches Some(e) ==> e.valid(),
        ensures
            out@ == event_id_of(title@, local_date_of(starts_at), match ends_at {
                Some(e) => Some(local_date_of(e)),
                None => None,
            }),
    {
        let s = date_of_local(local_date_time(starts_at));
        let e = match ends_at {
            Some(t) => Some(date_of_local(local_date_time(t))),
            None => None,
        };
        event_id_from_dates(title, s, e)
    }
}

/// Event identifiers do not depend on the white space of the title.
pub proof fn law_event_id_ignores_white_space(a: Seq<char>, b: Seq<char>, start: (int, int, int), end: Option<(int, int, int)>)
    requires
        collapse_ws(a) == collapse_ws(b),
    ensures
        event_id_of(a, start, end) == event_id_of(b, start, end),
{
}

/// The years whose pages a crawl limited to `days` days back from `now` reads, as the
/// first and last year: from the year before to the year after the current one when
/// `days` is 0; otherwise from the year `days` days ago to the current year, or to the
/// next year in December. Years are those of Korea Standard Time when `now` is.
pub open spec fn year_span(days: u32, now: Timestamp) -> (int, int) {
    let f = local_fields_of(now.unix_nanos as int, now.offset_seconds as int);
    let start = if days == 0 {
        f.0 - 1
    } else {
        local_fields_of(now.unix_nanos - days * NANOS_PER_DAY, now.offset_seconds as int).0
    };
    let end = if days == 0 || f.1 == 12 { f.0 + 1 } else { f.0 };
    (start, end)
}

/// The instant `days` days before `t`, in the same offset.
pub open spec fn days_before(t: Timestamp, days: u32) -> Timestamp {
    Timestamp { unix_nanos: (t.unix_nanos - days * NANOS_PER_DAY) as i128, offset_seconds: t.offset_seconds }
}

/// The years from `start` to `end`, both included.
pub open spec fn years_from_to(start: int, end: int) -> Seq<i32> {
    Seq::new(if end >= start { (end - start + 1) as nat } else { 0 }, |i: int| (start + i) as i32)
}

impl SsuAcademicCalendarPlugin {
    /// The years whose calendar pages to read for a crawl limited to `days` days back from
    /// `now` (see `year_span`).
    pub fn target_years(days: u32, now: Timestamp) -> (years: Vec<i32>)
        requires
            now.valid(),
            days > 0 ==> days_before(now, days).valid(),
        ensures
            years@ == years_from_to(year_span(days, now).0, year_span(days, now).1),
    {
        let f = local_date_time(now);
        let current_year = f.year;
        let start_year: i32 = if days == 0 {
            current_year - 1
        } else {
            let before = Timestamp { unix_nanos: now.unix_nanos - (days as i128) * NANOS_PER_DAY, offset_seconds: now.offset_seconds };
            local_date_time(before).year
        };
        let end_year: i32 = if days == 0 || f.month == 12 { current_year + 1 } else { current_year };
        let mut years: Vec<i32> = Vec::new();
        let mut y = start_year;
        let ghost target = years_from_to(start_year as int, end_year as int);
        while y <= end_year
            invariant
                start_year <= y,
                y <= end_year + 1 || y == start_year,
                years@ == years_from_to(start_year as int, y - 1),
                -10_000 <= start_year <= 10_000,
                -10_000 <= end_year <= 10_000,
            decreases end_year - y + 1,
        {
            years.push(y);
            proof {
                assert(years@ =~= years_from_to(start_year as int, y as int));
            }
            y += 1;
        }
        proof {
            if start_year > end_year {
                assert(y == start_year);
                assert(years@.len() == 0);
                assert(years@ =~= years_from_to(start_year as int, end_year as int));
            } else {
                assert(y == end_year + 1);
            }
        }
        years
    }
}

impl SsuAcademicCalendarPlugin {
    /// The address of the calendar page of `year`: the base address with `years=<year>`.
    pub fn year_page_url(year: i32) -> (r: Result<String, PluginError>)
        ensures
            match r {
                Ok(u) => url_with_pairs(BASE_URL@, seq![("years"@, int_text(year as int))]) == Some(u@),
                Err(e) => url_with_pairs(BASE_URL@, seq![("years"@, int_text(year as int))]) is None && (e is Parse),
            },
    {
        let y = int_to_text(year as i64);
        let mut pairs: Vec<(String, String)> = Vec::new();
        pairs.push((String::from_str("years"), y));
        proof {
            assert(pair_views(pairs@) =~= seq![("years"@, int_text(year as int))]);
        }
        match append_query_pairs(BASE_URL, &pairs) {
            Some(u) => Ok(u),
            None => Err(PluginError::parse(IDENTIFIER, String::from_str("Invalid base URL"))),
        }
    }
}

/// The text of an element: its text nodes joined by spaces, white space collapsed.
pub open spec fn element_text_of(html: Seq<char>) -> Seq<char> {
    collapse_ws(join_space(fragment_text_nodes(html)))
}

impl SsuAcademicCalendarPlugin {
    /// The text of an element given as HTML.
    pub fn element_text(html: &str) -> (out: String)
        ensures
            out@ == element_text_of(html@),
    {
        let pieces = fragment_texts(html);
        let joined = join_with_space(&pieces);
        SsuAcademicCalendarPlugin::normalize_whitespace(joined.as_str())
    }
}

/// The month of a month block of a calendar page: the number in its month label.
pub open spec fn month_of_block(block: Seq<char>) -> Option<int> {
    let labels = fragment_matches(block, "span.font-size-50"@);
    if labels.len() == 0 {
        None
    } else {
        parse_unsigned(element_text_of(labels[0]), 255)
    }
}

impl SsuAcademicCalendarPlugin {
    /// Reads the month of a month block.
    pub fn parse_month(month_block: &str) -> (r: Result<u8, PluginError>)
        ensures
            match r {
                Ok(m) => month_of_block(month_block@) == Some(m as int),
                Err(e) => month_of_block(month_block@) is None && (e is Parse),
            },
    {
        let labels = select_in_fragment(month_block, "span.font-size-50");
        proof {
            assert(labels@.len() == fragment_matches(month_block@, "span.font-size-50"@).len());
        }
        if labels.len() == 0 {
            return Err(PluginError::parse(IDENTIFIER, String::from_str("Month label not found")));
        }
        let text = SsuAcademicCalendarPlugin::element_text(labels[0].as_str());
        proof {
            assert(labels@[0]@ == fragment_matches(month_block@, "span.font-size-50"@)[0]);
        }
        let v = chars_of(text.as_str());
        match parse_unsigned_text(&v, 255) {
            Some(m) => Ok(m as u8),
            None => Err(PluginError::parse(IDENTIFIER, concat("Failed to parse month ", text.as_str()))),
        }
    }
}

/// The columns of a calendar item.
pub open spec fn event_columns(event: Seq<char>) -> Seq<Seq<char>> {
    fragment_matches(event, ".row > div"@)
}

/// The date text of a calendar item with at least two columns.
pub open spec fn event_date_text(event: Seq<char>) -> Seq<char> {
    element_text_of(event_columns(event)[0])
}

/// The title of a calendar item with at least two columns.
pub open spec fn event_title(event: Seq<char>) -> Seq<char> {
    collapse_ws(element_text_of(event_columns(event)[1]))
}

/// What a calendar item yields: -1 when it cannot be read (fewer than two columns, or
/// an unreadable date), 0 when its date or title is empty, 1 when it is an event.
pub open spec fn event_outcome(event: Seq<char>, year: int, month: int) -> int {
    if event_columns(event).len() < 2 {
        -1
    } else if event_date_text(event).len() == 0 || event_title(event).len() == 0 {
        0
    } else if event_date_range(event_date_text(event), year, month) is None {
        -1
    } else {
        1
    }
}

/// The address of a calendar item: its title's first link resolved against the page,
/// or the page itself.
pub open spec fn event_url_of(event: Seq<char>, page_url: Seq<char>) -> Seq<char> {
    match fragment_first_attr(event_columns(event)[1], "a[href]"@, "href"@) {
        Some(h) => match joined_url(page_url, h) {
            Some(u) => u,
            None => page_url,
        },
        None => page_url,
    }
}

/// `item` is the event that the calendar item `event` yields on the page `page_url` of
/// `year` in the month `month`.
pub open spec fn event_item_ok(item: SsufidCalendar, event: Seq<char>, year: int, month: int, page_url: Seq<char>) -> bool {
    let (a, b) = event_date_range(event_date_text(event), year, month)->0;
    &&& item.title@ == event_title(event)
    &&& item.id@ == event_id_of(event_title(event), a, Some(b))
    &&& item.description is None
    &&& item.location is None
    &&& opt_view(item.url) == Some(event_url_of(event, page_url))
    &&& item.starts_at.offset_seconds == KST_OFFSET_SECONDS
    &&& item.starts_at.unix_nanos == instant_of_local(a.0, a.1, a.2, 0, 0, 0, KST_OFFSET_SECONDS as int)
    &&& item.ends_at matches Some(t) && t.offset_seconds == KST_OFFSET_SECONDS
        && t.unix_nanos == instant_of_local(b.0, b.1, b.2, 23, 59, 59, KST_OFFSET_SECONDS as int)
}

impl SsuAcademicCalendarPlugin {
    /// Reads one calendar item of the page `page_url` of `year`, in the month `month`.
    pub fn parse_event(event: &str, year: i32, month: u8, page_url: &str) -> (r: Result<Option<SsufidCalendar>, PluginError>)
        ensures
            r is Err <==> event_outcome(event@, year as int, month as int) == -1,
            r matches Err(e) ==> (e is Parse),
            r matches Ok(None) ==> event_outcome(event@, year as int, month as int) == 0,
            r matches Ok(Some(item)) ==> event_outcome(event@, year as int, month as int) == 1
                && event_item_ok(item, event@, year as int, month as int, page_url@),
    {
        let columns = select_in_fragment(event, ".row > div");
        proof {
            assert(columns@.len() == event_columns(event@).len());
        }
        if columns.len() < 2 {
            return Err(PluginError::parse(IDENTIFIER, String::from_str("Calendar item does not contain two columns")));
        }
        proof {
            assert(columns@[0]@ == event_columns(event@)[0]);
            assert(columns@[1]@ == event_columns(event@)[1]);
        }
        let date_text = SsuAcademicCalendarPlugin::element_text(columns[0].as_str());
        let title_text = SsuAcademicCalendarPlugin::element_text(columns[1].as_str());
        let title = SsuAcademicCalendarPlugin::normalize_whitespace(title_text.as_str());
        if date_text.as_str().unicode_len() == 0 || title.as_str().unicode_len() == 0 {
            return Ok(None);
        }
        let (first, last) = parse_event_date_range(date_text.as_str(), year, month)?;
        let starts_at = timestamp_at(first, 0, 0, 0, KST_OFFSET_SECONDS);
        let ends_at = timestamp_at(last, 23, 59, 59, KST_OFFSET_SECONDS);
        let url = match first_attr_in_fragment(columns[1].as_str(), "a[href]", "href") {
            Some(href) => match join_url(page_url, href.as_str()) {
                Some(u) => u,
                None => String::from_str(page_url),
            },
            None => String::from_str(page_url),
        };
        let id = event_id_from_dates(title.as_str(), first, Some(last));
        Ok(Some(SsufidCalendar {
            id,
            title,
            description: None,
            starts_at,
            ends_at: Some(ends_at),
            location: None,
            url: Some(url),
        }))
    }
}

/// The month blocks of a calendar page.
pub open spec fn page_blocks(html: Seq<char>) -> Seq<Seq<char>> {
    document_matches(html, "#calendar > div[id^='calendar']"@)
}

/// The calendar items of month blocks whose months all read, each with its block's month.
pub open spec fn block_events(blocks: Seq<Seq<char>>) -> Seq<(Seq<char>, int)>
    decreases blocks.len(),
{
    if blocks.len() == 0 {
        Seq::empty()
    } else {
        block_events(blocks.drop_last()) + fragment_matches(blocks.last(), "ul.tb > li"@).map_values(
            |e: Seq<char>| (e, month_of_block(blocks.last())->0),
        )
    }
}

/// `items` are the events that the calendar items `evs` yield, in order, the unreadable
/// and empty ones skipped.
pub open spec fn items_follow(items: Seq<SsufidCalendar>, evs: Seq<(Seq<char>, int)>, year: int, page_url: Seq<char>) -> bool
    decreases evs.len(),
{
    if evs.len() == 0 {
        items.len() == 0
    } else if event_outcome(evs.last().0, year, evs.last().1) == 1 {
        &&& items.len() > 0
        &&& event_item_ok(items.last(), evs.last().0, year, evs.last().1, page_url)
        &&& items_follow(items.drop_last(), evs.drop_last(), year, page_url)
    } else {
        items_follow(items, evs.drop_last(), year, page_url)
    }
}

/// Whether some calendar item of `evs` yields an event.
pub open spec fn some_event(evs: Seq<(Seq<char>, int)>, year: int) -> bool {
    exists|i: int| 0 <= i < evs.len() && event_outcome(#[trigger] evs[i].0, year, evs[i].1) == 1
}

/// Whether the calendar page of `year` reads: it has a calendar section, month blocks
/// whose months all read, and at least one event.
pub open spec fn page_readable(html: Seq<char>, year: int) -> bool {
    &&& document_matches(html, "#calendar"@).len() > 0
    &&& page_blocks(html).len() > 0
    &&& forall|i: int| 0 <= i < page_blocks(html).len() ==> month_of_block(#[trigger] page_blocks(html)[i]) is Some
    &&& some_event(block_events(page_blocks(html)), year)
}

proof fn lemma_items_follow_empty(evs: Seq<(Seq<char>, int)>, year: int, page_url: Seq<char>, items: Seq<SsufidCalendar>)
    requires
        items_follow(items, evs, year, page_url),
    ensures
        items.len() == 0 <==> !some_event(evs, year),
    decreases evs.len(),
{
    if evs.len() > 0 {
        let pre = evs.drop_last();
        if event_outcome(evs.last().0, year, evs.last().1) == 1 {
            assert(event_outcome(evs[evs.len() - 1].0, year, evs[evs.len() - 1].1) == 1);
        } else {
            lemma_items_follow_empty(pre, year, page_url, items);
            if some_event(evs, year) {
                let i = choose|i: int| 0 <= i < evs.len() && event_outcome(#[trigger] evs[i].0, year, evs[i].1) == 1;
                assert(pre[i] == evs[i]);
            }
            if some_event(pre, year) {
                let i = choose|i: int| 0 <= i < pre.len() && event_outcome(#[trigger] pre[i].0, year, pre[i].1) == 1;
                assert(pre[i] == evs[i]);
            }
        }
    }
}

impl SsuAcademicCalendarPlugin {
    /// Reads the events of the calendar page of `year` at `page_url`; unreadable calendar
    /// items are skipped, and a page without a calendar, without month blocks, with a month
    /// that does not read, or without any event is refused.
    pub fn parse_year_page(html: &str, year: i32, page_url: &str) -> (r: Result<Vec<SsufidCalendar>, PluginError>)
        ensures
            r is Ok <==> page_readable(html@, year as int),
            r matches Err(e) ==> (e is Parse),
            r matches Ok(items) ==> items_follow(items@, block_events(page_blocks(html@)), year as int, page_url@),
    {
        let section = select_in_document(html, "#calendar");
        proof {
            assert(section@.len() == document_matches(html@, "#calendar"@).len());
        }
        if section.len() == 0 {
            return Err(PluginError::parse(IDENTIFIER, String::from_str("Calendar section not found")));
        }
        let blocks = select_in_document(html, "#calendar > div[id^='calendar']");
        let ghost bs = page_blocks(html@);
        proof {
            assert(blocks@.len() == bs.len());
        }
        if blocks.len() == 0 {
            return Err(PluginError::parse(IDENTIFIER, String::from_str("Month blocks not found")));
        }
        let mut events: Vec<(String, u8)> = Vec::new();
        let mut b: usize = 0;
        while b < blocks.len()
            invariant
                b <= blocks.len(),
                bs == page_blocks(html@),
                blocks@.len() == bs.len(),
                forall|i: int| 0 <= i < bs.len() ==> blocks@[i]@ == #[trigger] bs[i],
                forall|i: int| 0 <= i < b ==> month_of_block(#[trigger] bs[i]) is Some,
                events@.map_values(|p: (String, u8)| (p.0@, p.1 as int)) == block_events(bs.take(b as int)),
            decreases blocks.len() - b,
        {
            let month = match SsuAcademicCalendarPlugin::parse_month(blocks[b].as_str()) {
                Ok(m) => m,
                Err(e) => {
                    proof {
                        assert(month_of_block(page_blocks(html@)[b as int]) is None);
                        assert(!page_readable(html@, year as int));
                    }
                    return Err(e);
                },
            };
            let evs = select_in_fragment(blocks[b].as_str(), "ul.tb > li");
            let ghost mapped = fragment_matches(bs[b as int], "ul.tb > li"@).map_values(
                |e: Seq<char>| (e, month_of_block(bs[b as int])->0),
            );
            let ghost start = events@.map_values(|p: (String, u8)| (p.0@, p.1 as int));
            let mut j: usize = 0;
            while j < evs.len()
                invariant
                    j <= evs.len(),
                    evs@.len() == mapped.len(),
                    forall|k: int| 0 <= k < mapped.len() ==> #[trigger] mapped[k] == (evs@[k]@, month as int),
                    events@.map_values(|p: (String, u8)| (p.0@, p.1 as int)) == start + mapped.take(j as int),
                decreases evs.len() - j,
            {
                let e = evs[j].clone();
                let ghost before = events@;
                proof {
                    assert(mapped.take(j + 1) == mapped.take(j as int).push(mapped[j as int]));
                }
                events.push((e, month));
                proof {
                    assert(events@.map_values(|p: (String, u8)| (p.0@, p.1 as int)) =~= before.map_values(|p: (String, u8)| (p.0@, p.1 as int)).push((evs@[j as int]@, month as int)));
                    assert(events@.map_values(|p: (String, u8)| (p.0@, p.1 as int)) =~= start + mapped.take(j + 1));
                }
                j += 1;
            }
            proof {
                assert(mapped.take(mapped.len() as int) == mapped);
                assert(bs.take(b + 1).drop_last() == bs.take(b as int));
                assert(bs.take(b + 1).last() == bs[b as int]);
            }
            b += 1;
        }
        proof {
            assert(bs.take(bs.len() as int) == bs);
        }
        let ghost all = block_events(bs);
        let mut items: Vec<SsufidCalendar> = Vec::new();
        let mut k: usize = 0;
        while k < events.len()
            invariant
                k <= events.len(),
                events@.map_values(|p: (String, u8)| (p.0@, p.1 as int)) == all,
                items_follow(items@, all.take(k as int), year as int, page_url@),
            decreases events.len() - k,
        {
            let ghost pair = all[k as int];
            proof {
                assert(pair == (events@[k as int].0@, events@[k as int].1 as int));
                assert(all.take(k + 1).drop_last() == all.take(k as int));
                assert(all.take(k + 1).last() == pair);
            }
            let ghost before = items@;
            match SsuAcademicCalendarPlugin::parse_event(events[k].0.as_str(), year, events[k].1, page_url) {
                Ok(Some(item)) => {
                    items.push(item);
                    proof {
                        assert(items@.drop_last() == before);
                        assert(items_follow(items@, all.take(k + 1), year as int, page_url@));
                    }
                },
                Ok(None) => {
                    proof {
                        assert(items_follow(items@, all.take(k + 1), year as int, page_url@));
                    }
                },
                Err(_) => {
                    proof {
                        assert(items_follow(items@, all.take(k + 1), year as int, page_url@));
                    }
                },
            }
            k += 1;
        }
        proof {
            assert(all.take(all.len() as int) == all);
            lemma_items_follow_empty(all, year as int, page_url@, items@);
        }
        if items.len() == 0 {
            return Err(PluginError::parse(IDENTIFIER, String::from_str("No calendar items were parsed")));
        }
        Ok(items)
    }
}

/// The events of all pages, in order.
pub open spec fn flatten_pages(pages: Seq<Vec<SsufidCalendar>>) -> Seq<SsufidCalendar>
    decreases pages.len(),
{
    if pages.len() == 0 {
        Seq::empty()
    } else {
        flatten_pages(pages.drop_last()) + pages.last()@
    }
}

/// The events of a crawl's pages, one per identifier (a later event replacing an
/// earlier one with its identifier), ordered by start and then identifier.
pub fn collect_calendar_items(pages: Vec<Vec<SsufidCalendar>>) -> (items: Vec<SsufidCalendar>)
    ensures
        is_stable_sort_of(
            entry_values(collect_events(flatten_pages(pages@))),
            items@,
            |a: SsufidCalendar, b: SsufidCalendar| event_le(a, b),
        ),
{
    let ghost src = pages@;
    let mut map = event_map_new();
    let ghost mut done: Seq<SsufidCalendar> = Seq::empty();
    for page in it: pages
        invariant
            it.seq() == src,
            done == flatten_pages(it.seq().take(it.index() as int)),
            event_entries(map) == collect_events(done),
    {
        let ghost page_items = page@;
        proof {
            assert(it.seq().take(it.index() + 1).drop_last() == it.seq().take(it.index() as int));
            assert(it.seq().take(it.index() + 1).last() == page);
        }
        let ghost base = done;
        for item in jt: page
            invariant
                jt.seq() == page_items,
                done == base + page_items.take(jt.index() as int),
                event_entries(map) == collect_events(done),
        {
            let id = item.id.clone();
            let ghost next = done.push(item);
            proof {
                assert(next.drop_last() == done);
                assert(next.last() == item);
            }
            event_map_insert(&mut map, id, item);
            proof {
                done = next;
                assert(done =~= base + page_items.take(jt.index() + 1));
            }
        }
        proof {
            assert(page_items.take(page_items.len() as int) == page_items);
        }
    }
    proof {
        assert(src.take(src.len() as int) == src);
    }
    let mut items = event_map_into_values(map);
    sort_events(&mut items);
    items
}

} // verus!
