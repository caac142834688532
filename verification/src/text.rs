//! Character-level text utilities, each stated over the `Seq<char>` view of the text.

use vstd::prelude::*;

verus! {

/// Unicode `White_Space` code points: exactly the characters for which
/// `char::is_whitespace` holds.
pub open spec fn is_ws(c: char) -> bool {
    ||| ('\u{9}' <= c && c <= '\u{d}')
    ||| c == ' '
    ||| c == '\u{85}'
    ||| c == '\u{a0}'
    ||| c == '\u{1680}'
    ||| ('\u{2000}' <= c && c <= '\u{200a}')
    ||| c == '\u{2028}'
    ||| c == '\u{2029}'
    ||| c == '\u{202f}'
    ||| c == '\u{205f}'
    ||| c == '\u{3000}'
}

/// Whether `c` is a white-space character.
pub fn is_whitespace(c: char) -> (b: bool)
    ensures
        b == is_ws(c),
{
    ('\u{9}' <= c && c <= '\u{d}') || c == ' ' || c == '\u{85}' || c == '\u{a0}' || c == '\u{1680}'
        || ('\u{2000}' <= c && c <= '\u{200a}') || c == '\u{2028}' || c == '\u{2029}' || c
        == '\u{202f}' || c == '\u{205f}' || c == '\u{3000}'
}

/// `s` without its leading white space.
pub open spec fn trim_start(s: Seq<char>) -> Seq<char>
    decreases s.len(),
{
    if s.len() > 0 && is_ws(s[0]) {
        trim_start(s.drop_first())
    } else {
        s
    }
}

/// `s` without its trailing white space.
pub open spec fn trim_end(s: Seq<char>) -> Seq<char>
    decreases s.len(),
{
    if s.len() > 0 && is_ws(s.last()) {
        trim_end(s.drop_last())
    } else {
        s
    }
}

/// `s` without leading and trailing white space, as `str::trim` gives it.
pub open spec fn trim(s: Seq<char>) -> Seq<char> {
    trim_end(trim_start(s))
}

/// Appends one character to a string (`String::push`).
#[verifier::external_body]
pub(crate) fn push_char(s: &mut String, c: char)
    ensures
        final(s)@ == old(s)@.push(c),
{
    s.push(c);
}

/// The characters of `s`, in order.
pub fn chars_of(s: &str) -> (out: Vec<char>)
    ensures
        out@ == s@,
{
    let mut out: Vec<char> = Vec::new();
    for c in it: s.chars()
        invariant
            out@ == it.seq().take(it.index() as int),
            it.seq() == s@,
    {
        out.push(c);
    }
    out
}

/// The string made of the characters `v[from..to]`.
pub fn string_of_range(v: &Vec<char>, from: usize, to: usize) -> (out: String)
    requires
        from <= to <= v.len(),
    ensures
        out@ == v@.subrange(from as int, to as int),
{
    let mut out = String::new();
    let mut i = from;
    while i < to
        invariant
            from <= i <= to <= v.len(),
            out@ == v@.subrange(from as int, i as int),
        decreases to - i,
    {
        push_char(&mut out, v[i]);
        assert(v@.subrange(from as int, i + 1) == v@.subrange(from as int, i as int).push(v@[i as int]));
        i += 1;
    }
    out
}

/// The string made of the characters of `v`.
pub fn string_of(v: &Vec<char>) -> (out: String)
    ensures
        out@ == v@,
{
    let out = string_of_range(v, 0, v.len());
    assert(v@.subrange(0, v@.len() as int) == v@);
    out
}

proof fn lemma_trim_start_skip(s: Seq<char>, i: int)
    requires
        0 <= i <= s.len(),
        forall|j: int| 0 <= j < i ==> is_ws(#[trigger] s[j]),
    ensures
        trim_start(s) == trim_start(s.subrange(i, s.len() as int)),
    decreases i,
{
    if i > 0 {
        lemma_trim_start_skip(s.drop_first(), i - 1);
        assert(s.drop_first().subrange(i - 1, s.drop_first().len() as int) == s.subrange(i, s.len() as int));
    } else {
        assert(s.subrange(0, s.len() as int) == s);
    }
}

proof fn lemma_trim_end_skip(s: Seq<char>, k: int)
    requires
        0 <= k <= s.len(),
        forall|j: int| k <= j < s.len() ==> is_ws(#[trigger] s[j]),
    ensures
        trim_end(s) == trim_end(s.subrange(0, k)),
    decreases s.len() - k,
{
    if k < s.len() {
        lemma_trim_end_skip(s.drop_last(), k);
        assert(s.drop_last().subrange(0, k) == s.subrange(0, k));
    } else {
        assert(s.subrange(0, k) == s);
    }
}

/// The bounds `(lo, hi)` such that `v[lo..hi]` is `v` trimmed of white space.
pub fn trim_bounds(v: &Vec<char>) -> (r: (usize, usize))
    ensures
        r.0 <= r.1 <= v.len(),
        v@.subrange(r.0 as int, r.1 as int) == trim(v@),
{
    let mut lo: usize = 0;
    while lo < v.len() && is_whitespace(v[lo])
        invariant
            lo <= v.len(),
            forall|j: int| 0 <= j < lo ==> is_ws(#[trigger] v@[j]),
        decreases v.len() - lo,
    {
        lo += 1;
    }
    let ghost rest = v@.subrange(lo as int, v@.len() as int);
    proof {
        lemma_trim_start_skip(v@, lo as int);
    }
    let mut hi: usize = v.len();
    while hi > lo && is_whitespace(v[hi - 1])
        invariant
            lo <= hi <= v.len(),
            forall|j: int| hi <= j < v.len() ==> is_ws(#[trigger] v@[j]),
        decreases hi,
    {
        hi -= 1;
    }
    proof {
        lemma_trim_end_skip(rest, hi - lo);
        assert(rest.subrange(0, hi - lo) == v@.subrange(lo as int, hi as int));
    }
    (lo, hi)
}

/// `s` without leading and trailing white space (`str::trim`).
pub fn trim_str(s: &str) -> (out: String)
    ensures
        out@ == trim(s@),
{
    let v = chars_of(s);
    let (lo, hi) = trim_bounds(&v);
    string_of_range(&v, lo, hi)
}

} // verus!

verus! {

/// Whether `a` and `b` are equal once trimmed of white space.
pub fn trimmed_eq(a: &str, b: &str) -> (r: bool)
    ensures
        r == (trim(a@) == trim(b@)),
{
    let ta = trim_str(a);
    let tb = trim_str(b);
    ta == tb
}

/// `Some` of the trimmed text, or `None`.
pub open spec fn trim_opt(s: Option<String>) -> Option<Seq<char>> {
    match s {
        Some(t) => Some(trim(t@)),
        None => None,
    }
}

/// Whether two optional texts agree once trimmed: both absent, or both present and
/// equal once trimmed.
pub fn trimmed_opt_eq(a: &Option<String>, b: &Option<String>) -> (r: bool)
    ensures
        r == (trim_opt(*a) == trim_opt(*b)),
{
    match (a, b) {
        (None, None) => true,
        (Some(x), Some(y)) => trimmed_eq(x.as_str(), y.as_str()),
        _ => false,
    }
}

/// The views of a sequence of strings.
pub open spec fn views(v: Seq<String>) -> Seq<Seq<char>> {
    v.map_values(|s: String| s@)
}

/// Whether two lists of strings hold the same texts in the same order.
pub fn strings_eq(a: &Vec<String>, b: &Vec<String>) -> (r: bool)
    ensures
        r == (views(a@) == views(b@)),
{
    if a.len() != b.len() {
        proof {
            assert(views(a@).len() != views(b@).len());
        }
        return false;
    }
    let mut i: usize = 0;
    while i < a.len()
        invariant
            a.len() == b.len(),
            i <= a.len(),
            forall|j: int| 0 <= j < i ==> (#[trigger] a@[j])@ == b@[j]@,
        decreases a.len() - i,
    {
        if a[i] != b[i] {
            proof {
                assert(views(a@)[i as int] != views(b@)[i as int]);
            }
            return false;
        }
        i += 1;
    }
    proof {
        assert(views(a@) =~= views(b@));
    }
    true
}

} // verus!

verus! {

/// Three-way lexicographic comparison of two texts by code point: -1, 0 or 1, as
/// `Ord` for `str` orders them.
pub open spec fn lex_order(a: Seq<char>, b: Seq<char>) -> int
    decreases a.len(),
{
    if a.len() == 0 && b.len() == 0 {
        0
    } else if a.len() == 0 {
        -1
    } else if b.len() == 0 {
        1
    } else if a[0] < b[0] {
        -1
    } else if a[0] > b[0] {
        1
    } else {
        lex_order(a.drop_first(), b.drop_first())
    }
}

/// Three-way lexicographic comparison of two texts by code point.
pub fn compare_text(a: &str, b: &str) -> (r: i8)
    ensures
        r == lex_order(a@, b@),
{
    let va = chars_of(a);
    let vb = chars_of(b);
    let mut i: usize = 0;
    assert(va@.skip(0) == va@ && vb@.skip(0) == vb@);
    while i < va.len() && i < vb.len() && va[i] == vb[i]
        invariant
            i <= va.len(),
            i <= vb.len(),
            lex_order(va@, vb@) == lex_order(va@.skip(i as int), vb@.skip(i as int)),
        decreases va.len() - i,
    {
        proof {
            assert(va@.skip(i as int).drop_first() == va@.skip(i + 1));
            assert(vb@.skip(i as int).drop_first() == vb@.skip(i + 1));
        }
        i += 1;
    }
    if i == va.len() && i == vb.len() {
        0
    } else if i == va.len() {
        -1
    } else if i == vb.len() {
        1
    } else if va[i] < vb[i] {
        -1
    } else {
        1
    }
}

/// Lexicographic order is total: of two texts, one is no greater than the other.
pub proof fn lemma_lex_order_antisymmetric(a: Seq<char>, b: Seq<char>)
    ensures
        lex_order(a, b) == -lex_order(b, a),
        lex_order(a, b) == 0 <==> a == b,
        -1 <= lex_order(a, b) <= 1,
    decreases a.len(),
{
    if a.len() > 0 && b.len() > 0 && a[0] == b[0] {
        lemma_lex_order_antisymmetric(a.drop_first(), b.drop_first());
        if a.drop_first() =~= b.drop_first() {
            assert(a =~= b) by {
                assert forall|k: int| 0 <= k < a.len() implies a[k] == b[k] by {
                    if k > 0 {
                        assert(a[k] == a.drop_first()[k - 1]);
                        assert(b[k] == b.drop_first()[k - 1]);
                    }
                }
            }
        }
        if a == b {
            assert(a.drop_first() =~= b.drop_first());
        }
    } else if a.len() > 0 && b.len() > 0 {
        assert(a[0] != b[0]);
        assert(a != b);
    } else if a.len() != b.len() {
        assert(a != b);
    } else {
        assert(a =~= b);
    }
}

/// Lexicographic order is transitive.
pub proof fn lemma_lex_order_transitive(a: Seq<char>, b: Seq<char>, c: Seq<char>)
    requires
        lex_order(a, b) <= 0,
        lex_order(b, c) <= 0,
    ensures
        lex_order(a, c) <= 0,
    decreases a.len(),
{
    if a.len() > 0 && b.len() > 0 && c.len() > 0 && a[0] == b[0] && b[0] == c[0] {
        lemma_lex_order_transitive(a.drop_first(), b.drop_first(), c.drop_first());
    }
}

} // verus!

verus! {

/// Collapsing white space, character by character: the text so far, and whether a
/// separating space is owed before the next word.
pub open spec fn collapse_state(s: Seq<char>) -> (Seq<char>, bool)
    decreases s.len(),
{
    if s.len() == 0 {
        (Seq::empty(), false)
    } else {
        let (out, pending) = collapse_state(s.drop_last());
        let c = s.last();
        if is_ws(c) {
            (out, out.len() > 0)
        } else if pending {
            (out + seq![' ', c], false)
        } else {
            (out.push(c), false)
        }
    }
}

/// The words of `s` joined by single spaces (`split_whitespace` then `join(" ")`).
pub open spec fn collapse_ws(s: Seq<char>) -> Seq<char> {
    collapse_state(s).0
}

/// Whether `s` is already collapsed: its only white space is single spaces between
/// words.
pub open spec fn is_collapsed(s: Seq<char>) -> bool {
    &&& forall|i: int| 0 <= i < s.len() && is_ws(#[trigger] s[i]) ==> s[i] == ' ' && 0 < i < s.len() - 1 && s[i - 1] != ' ' && s[i + 1] != ' '
}


proof fn lemma_collapse_state(s: Seq<char>)
    ensures
        is_collapsed(collapse_state(s).0),
        collapse_state(s).0.len() > 0 ==> !is_ws(collapse_state(s).0.last()),
        collapse_state(s).1 ==> collapse_state(s).0.len() > 0,
    decreases s.len(),
{
    if s.len() > 0 {
        lemma_collapse_state(s.drop_last());
        let (out, pending) = collapse_state(s.drop_last());
        let c = s.last();
        if !is_ws(c) {
            let o2 = collapse_state(s).0;
            assert forall|i: int| 0 <= i < o2.len() && is_ws(#[trigger] o2[i]) implies o2[i] == ' ' && 0 < i < o2.len() - 1 && o2[i - 1] != ' ' && o2[i + 1] != ' ' by {
                if i < out.len() {
                    assert(o2[i] == out[i]);
                    if i + 1 < out.len() {
                        assert(o2[i + 1] == out[i + 1]);
                    }
                    assert(o2[i - 1] == out[i - 1]);
                }
            }
        }
    }
}

proof fn lemma_collapse_collapsed(t: Seq<char>, k: int)
    requires
        is_collapsed(t),
        t.len() > 0 ==> !is_ws(t[0]) && !is_ws(t.last()),
        0 <= k <= t.len(),
    ensures
        collapse_state(t.take(k)).0 == (if k > 0 && t[k - 1] == ' ' { t.take(k - 1) } else { t.take(k) }),
        collapse_state(t.take(k)).1 == (k > 0 && t[k - 1] == ' '),
    decreases k,
{
    if k > 0 {
        lemma_collapse_collapsed(t, k - 1);
        assert(t.take(k).drop_last() == t.take(k - 1));
        assert(t.take(k).last() == t[k - 1]);
        let c = t[k - 1];
        if is_ws(c) {
            assert(c == ' ');
            assert(k - 1 > 0 && t[k - 2] != ' ');
            assert(!is_ws(t[k - 2])) by {
                if is_ws(t[k - 2]) {
                    assert(t[k - 2] == ' ');
                }
            }
            assert(t.take(k - 1).len() > 0);
        } else if k >= 2 && t[k - 2] == ' ' {
            assert(t.take(k - 2) + seq![' ', c] =~= t.take(k));
        } else {
            assert(t.take(k - 1).push(c) =~= t.take(k));
        }
    }
}

/// Collapsing white space gives text whose only white space is single spaces between
/// words, and collapsing it again changes nothing.
pub proof fn law_collapse_ws(s: Seq<char>)
    ensures
        is_collapsed(collapse_ws(s)),
        collapse_ws(s).len() > 0 ==> !is_ws(collapse_ws(s)[0]) && !is_ws(collapse_ws(s).last()),
        collapse_ws(collapse_ws(s)) == collapse_ws(s),
{
    lemma_collapse_state(s);
    let t = collapse_ws(s);
    if t.len() > 0 && is_ws(t[0]) {
        assert(0 < 0);
    }
    lemma_collapse_collapsed(t, t.len() as int);
    assert(t.take(t.len() as int) == t);
}

} // verus!

verus! {

/// Whether `c` is an ASCII decimal digit.
pub open spec fn is_digit(c: char) -> bool {
    '0' <= c && c <= '9'
}

/// The value of the ASCII digits `s`, read in base 10.
pub open spec fn decimal_value(s: Seq<char>) -> int
    decreases s.len(),
{
    if s.len() == 0 {
        0
    } else {
        decimal_value(s.drop_last()) * 10 + (s.last() as int - '0' as int)
    }
}

/// Whether every character of `s` is an ASCII digit.
pub open spec fn all_digits(s: Seq<char>) -> bool {
    forall|i: int| 0 <= i < s.len() ==> is_digit(#[trigger] s[i])
}

/// The value that `str::parse` gives for an unsigned integer type whose largest value is
/// `max`: an optional `+`, then one or more ASCII digits, whose value must not exceed
/// `max`; anything else is refused.
pub open spec fn parse_unsigned(s: Seq<char>, max: int) -> Option<int> {
    let body = if s.len() > 0 && s[0] == '+' { s.drop_first() } else { s };
    if body.len() == 0 || !all_digits(body) {
        None
    } else if decimal_value(body) > max {
        None
    } else {
        Some(decimal_value(body))
    }
}

proof fn lemma_decimal_value_nonneg(s: Seq<char>)
    requires
        forall|i: int| 0 <= i < s.len() ==> is_digit(s[i]),
    ensures
        decimal_value(s) >= 0,
    decreases s.len(),
{
    if s.len() > 0 {
        lemma_decimal_value_nonneg(s.drop_last());
    }
}

proof fn lemma_decimal_value_grows(s: Seq<char>, k: int)
    requires
        0 <= k <= s.len(),
        forall|i: int| 0 <= i < s.len() ==> is_digit(s[i]),
    ensures
        decimal_value(s.take(k)) <= decimal_value(s),
    decreases s.len() - k,
{
    if k < s.len() {
        lemma_decimal_value_grows(s, k + 1);
        assert(s.take(k + 1).drop_last() == s.take(k));
        lemma_decimal_value_nonneg(s.take(k));
    } else {
        assert(s.take(k) == s);
    }
}

proof fn lemma_parse_refuses_non_digit(s: Seq<char>, max: int, j: int)
    requires
        0 <= j < (if s.len() > 0 && s[0] == '+' { s.drop_first() } else { s }).len(),
        !is_digit((if s.len() > 0 && s[0] == '+' { s.drop_first() } else { s })[j]),
    ensures
        parse_unsigned(s, max) is None,
{
}

/// What `parse_unsigned` reads lies between 0 and `max`.
pub proof fn lemma_parse_unsigned_range(s: Seq<char>, max: int)
    ensures
        parse_unsigned(s, max) matches Some(v) ==> 0 <= v <= max,
{
    let body = if s.len() > 0 && s[0] == '+' { s.drop_first() } else { s };
    if all_digits(body) {
        lemma_decimal_value_nonneg(body);
    }
}

/// Reads an unsigned decimal number no greater than `max` (`str::parse` for `u8`,
/// `u16`, `u32` or `u64`, with `max` the type's largest value).
pub fn parse_unsigned_text(v: &Vec<char>, max: u64) -> (r: Option<u64>)
    ensures
        match r {
            Some(n) => parse_unsigned(v@, max as int) == Some(n as int),
            None => parse_unsigned(v@, max as int) is None,
        },
{
    let start: usize = if v.len() > 0 && v[0] == '+' { 1 } else { 0 };
    let ghost body = if v@.len() > 0 && v@[0] == '+' { v@.drop_first() } else { v@ };
    assert(body == v@.skip(start as int));
    if start == v.len() {
        return None;
    }
    let mut value: u64 = 0;
    let mut i: usize = start;
    while i < v.len()
        invariant
            start <= i <= v.len(),
            body == v@.skip(start as int),
            body == (if v@.len() > 0 && v@[0] == '+' { v@.drop_first() } else { v@ }),
            value <= max,
            forall|j: int| start <= j < i ==> is_digit(v@[j]),
            value == decimal_value(v@.subrange(start as int, i as int)),
        decreases v.len() - i,
    {
        let c = v[i];
        if !('0' <= c && c <= '9') {
            proof {
                assert(body[i - start] == c);
                lemma_parse_refuses_non_digit(v@, max as int, i - start);
            }
            return None;
        }
        let d: u64 = (c as u64) - ('0' as u64);
        proof {
            assert(v@.subrange(start as int, i + 1).drop_last() == v@.subrange(start as int, i as int));
            assert(v@.subrange(start as int, i + 1).last() == c);
        }
        if d > max || value > (max - d) / 10 {
            proof {
                let w = decimal_value(v@.subrange(start as int, i + 1));
                assert(w == value * 10 + d);
                assert(w > max) by (nonlinear_arith)
                    requires
                        w == value * 10 + d,
                        d > max || value > (max - d) / 10,
                        value >= 0,
                ;
                if all_digits(body) {
                    lemma_decimal_value_grows(body, i + 1 - start);
                    assert(body.take(i + 1 - start) == v@.subrange(start as int, i + 1));
                }
                assert(parse_unsigned(v@, max as int) is None);
            }
            return None;
        }
        value = value * 10 + d;
        i += 1;
    }
    proof {
        assert(v@.subrange(start as int, v@.len() as int) == body);
    }
    Some(value)
}

} // verus!

verus! {

/// The decimal digits of a non-negative integer.
pub open spec fn nat_text(n: nat) -> Seq<char>
    decreases n,
{
    if n < 10 {
        seq![crate::ics::digit(n as int)]
    } else {
        nat_text((n / 10) as nat).push(crate::ics::digit((n % 10) as int))
    }
}

/// An integer in decimal, after a minus sign when negative, as `Display` writes it.
pub open spec fn int_text(n: int) -> Seq<char> {
    if n < 0 { seq!['-'] + nat_text((-n) as nat) } else { nat_text(n as nat) }
}

fn push_nat_text(out: &mut String, n: u64)
    ensures
        final(out)@ == old(out)@ + nat_text(n as nat),
    decreases n,
{
    if n < 10 {
        push_char(out, crate::ics::digit_char(n as u8));
    } else {
        push_nat_text(out, n / 10);
        push_char(out, crate::ics::digit_char((n % 10) as u8));
    }
}

/// An integer in decimal (`to_string` for integers).
pub fn int_to_text(n: i64) -> (out: String)
    ensures
        out@ == int_text(n as int),
{
    let mut out = String::new();
    if n < 0 {
        push_char(&mut out, '-');
        let m: u64 = if n == i64::MIN { 9_223_372_036_854_775_808u64 } else { (-n) as u64 };
        push_nat_text(&mut out, m);
    } else {
        push_nat_text(&mut out, n as u64);
    }
    out
}

/// A count in decimal (`to_string` for `usize`).
pub fn count_to_text(n: usize) -> (out: String)
    ensures
        out@ == nat_text(n as nat),
{
    let mut out = String::new();
    push_nat_text(&mut out, n as u64);
    out
}

/// The position of the first `c` in `s`, or -1.
pub open spec fn first_index_of(s: Seq<char>, c: char) -> int
    decreases s.len(),
{
    if s.len() == 0 {
        -1
    } else if s[0] == c {
        0
    } else if first_index_of(s.drop_first(), c) < 0 {
        -1
    } else {
        first_index_of(s.drop_first(), c) + 1
    }
}

pub proof fn lemma_first_index_of(s: Seq<char>, c: char)
    ensures
        -1 <= first_index_of(s, c) < s.len(),
        first_index_of(s, c) >= 0 ==> s[first_index_of(s, c)] == c,
        forall|j: int| 0 <= j < s.len() && (first_index_of(s, c) < 0 || j < first_index_of(s, c)) ==> s[j] != c,
    decreases s.len(),
{
    if s.len() > 0 && s[0] != c {
        lemma_first_index_of(s.drop_first(), c);
        assert forall|j: int| 0 < j < s.len() implies s[j] == s.drop_first()[j - 1] by {}
    }
}

/// The position of the first `c` in `v`, if there is one.
pub fn find_char(v: &Vec<char>, c: char) -> (r: Option<usize>)
    ensures
        r is None <==> first_index_of(v@, c) < 0,
        r matches Some(i) ==> i == first_index_of(v@, c) && i < v@.len() && v@[i as int] == c,
{
    let mut i: usize = 0;
    while i < v.len() && v[i] != c
        invariant
            i <= v.len(),
            forall|j: int| 0 <= j < i ==> v@[j] != c,
        decreases v.len() - i,
    {
        i += 1;
    }
    proof {
        lemma_first_index_of(v@, c);
        let f = first_index_of(v@, c);
        if f >= 0 && f < i {
            assert(v@[f] != c);
        }
    }
    if i < v.len() {
        Some(i)
    } else {
        None
    }
}

/// The characters of `v` from `from` up to `to`.
pub fn copy_range(v: &Vec<char>, from: usize, to: usize) -> (out: Vec<char>)
    requires
        from <= to <= v.len(),
    ensures
        out@ == v@.subrange(from as int, to as int),
{
    let mut out: Vec<char> = Vec::new();
    let mut k = from;
    while k < to
        invariant
            from <= k <= to <= v.len(),
            out@ == v@.subrange(from as int, k as int),
        decreases to - k,
    {
        out.push(v[k]);
        proof {
            assert(out@ =~= v@.subrange(from as int, k + 1));
        }
        k += 1;
    }
    out
}

/// The characters of `v` without leading and trailing white space.
pub fn trimmed_copy(v: &Vec<char>) -> (out: Vec<char>)
    ensures
        out@ == trim(v@),
{
    let (lo, hi) = trim_bounds(v);
    copy_range(v, lo, hi)
}

/// The position of the first occurrence of `pat` in `s`, or -1.
pub open spec fn seq_index_of(s: Seq<char>, pat: Seq<char>) -> int
    decreases s.len(),
{
    if s.len() < pat.len() {
        -1
    } else if s.take(pat.len() as int) == pat {
        0
    } else {
        proof {
            if s.len() == 0 {
                assert(s.take(pat.len() as int) =~= pat);
            }
        }
        if seq_index_of(s.drop_first(), pat) < 0 {
            -1
        } else {
            seq_index_of(s.drop_first(), pat) + 1
        }
    }
}

/// `seq_index_of` is the first place where `pat` occurs, and -1 exactly when it occurs
/// nowhere.
pub proof fn lemma_seq_index_of(s: Seq<char>, pat: Seq<char>)
    ensures
        seq_index_of(s, pat) == -1 || 0 <= seq_index_of(s, pat) <= s.len() - pat.len(),
        seq_index_of(s, pat) >= 0 ==> s.subrange(seq_index_of(s, pat), seq_index_of(s, pat) + pat.len()) == pat,
        forall|j: int| 0 <= j <= s.len() - pat.len() && (seq_index_of(s, pat) < 0 || j < seq_index_of(s, pat))
            ==> #[trigger] s.subrange(j, j + pat.len()) != pat,
    decreases s.len(),
{
    if s.len() < pat.len() {
    } else if s.take(pat.len() as int) == pat {
        assert(s.subrange(0, pat.len() as int) == s.take(pat.len() as int));
    } else {
        if s.len() == 0 {
            assert(s.take(pat.len() as int) =~= pat);
        }
        let t = s.drop_first();
        lemma_seq_index_of(t, pat);
        assert(s.subrange(0, pat.len() as int) == s.take(pat.len() as int));
        assert forall|j: int| 1 <= j <= s.len() - pat.len() implies #[trigger] s.subrange(j, j + pat.len()) == t.subrange(j - 1, j - 1 + pat.len()) by {
            assert(s.subrange(j, j + pat.len()) =~= t.subrange(j - 1, j - 1 + pat.len()));
        }
        if seq_index_of(t, pat) >= 0 {
            let r = seq_index_of(t, pat);
            assert(s.subrange(r + 1, r + 1 + pat.len()) == t.subrange(r, r + pat.len()));
        }
    }
}

/// The position of the first occurrence of the non-empty `pat` in `v`, if there is one.
pub fn find_text(v: &Vec<char>, pat: &Vec<char>) -> (r: Option<usize>)
    requires
        pat@.len() > 0,
    ensures
        r is None <==> seq_index_of(v@, pat@) < 0,
        r matches Some(i) ==> i == seq_index_of(v@, pat@) && i + pat@.len() <= v@.len(),
{
    proof {
        lemma_seq_index_of(v@, pat@);
    }
    if pat.len() > v.len() {
        return None;
    }
    let n = v.len();
    let last = n - pat.len();
    let mut i: usize = 0;
    while i <= last
        invariant
            n == v@.len(),
            last == v@.len() - pat@.len(),
            pat@.len() > 0,
            i <= last + 1,
            forall|j: int| 0 <= j < i ==> #[trigger] v@.subrange(j, j + pat@.len()) != pat@,
            seq_index_of(v@, pat@) == -1 || 0 <= seq_index_of(v@, pat@) <= v@.len() - pat@.len(),
            seq_index_of(v@, pat@) >= 0 ==> v@.subrange(seq_index_of(v@, pat@), seq_index_of(v@, pat@) + pat@.len()) == pat@,
            forall|j: int| 0 <= j <= v@.len() - pat@.len() && (seq_index_of(v@, pat@) < 0 || j < seq_index_of(v@, pat@))
                ==> #[trigger] v@.subrange(j, j + pat@.len()) != pat@,
        decreases last + 1 - i,
    {
        let mut k: usize = 0;
        let mut ok = true;
        while k < pat.len()
            invariant
                n == v@.len(),
                i <= last,
                last == v@.len() - pat@.len(),
                pat@.len() > 0,
                i + pat@.len() <= v@.len(),
                k <= pat@.len(),
                ok <==> forall|m: int| 0 <= m < k ==> v@[i + m] == pat@[m],
            decreases pat@.len() - k,
        {
            if v[i + k] != pat[k] {
                ok = false;
            }
            k += 1;
        }
        if ok {
            proof {
                assert(v@.subrange(i as int, i + pat@.len()) =~= pat@);
            }
            return Some(i);
        }
        proof {
            let m = choose|m: int| 0 <= m < pat@.len() && v@[i + m] != pat@[m];
            assert(v@.subrange(i as int, i + pat@.len())[m] != pat@[m]);
        }
        i += 1;
    }
    None
}

/// The number of bytes of `s` in UTF-8.
pub open spec fn utf8_bytes(s: Seq<char>) -> int
    decreases s.len(),
{
    if s.len() == 0 {
        0
    } else {
        utf8_bytes(s.drop_last()) + crate::ics::utf8_len(s.last())
    }
}

proof fn lemma_utf8_bytes_prefix(s: Seq<char>, i: int)
    requires
        0 <= i <= s.len(),
    ensures
        utf8_bytes(s.take(i)) <= utf8_bytes(s),
    decreases s.len(),
{
    if i < s.len() {
        assert(s.take(i) == s.drop_last().take(i));
        lemma_utf8_bytes_prefix(s.drop_last(), i);
    } else {
        assert(s.take(i) == s);
    }
}

/// Whether the UTF-8 form of `v` has at least `n` bytes.
pub fn has_utf8_bytes(v: &Vec<char>, n: usize) -> (b: bool)
    ensures
        b == (utf8_bytes(v@) >= n),
{
    let mut acc: u128 = 0;
    let mut i: usize = 0;
    while i < v.len() && acc < n as u128
        invariant
            i <= v.len(),
            acc == utf8_bytes(v@.take(i as int)),
            acc < n + 4,
        decreases v.len() - i,
    {
        proof {
            assert(v@.take(i + 1).drop_last() == v@.take(i as int));
        }
        acc = acc + crate::ics::len_utf8(v[i]) as u128;
        i += 1;
    }
    proof {
        lemma_utf8_bytes_prefix(v@, i as int);
        if i == v.len() {
            assert(v@.take(i as int) == v@);
        }
    }
    acc >= n as u128
}

/// The text of `s` before the first `sep`, or all of `s`.
pub open spec fn first_piece(s: Seq<char>, sep: Seq<char>) -> Seq<char> {
    let k = seq_index_of(s, sep);
    if k < 0 { s } else { s.take(k) }
}

/// The text after the first `sep` up to the next one (the second piece of a split at
/// `sep`), if `s` holds `sep`.
pub open spec fn second_piece(s: Seq<char>, sep: Seq<char>) -> Option<Seq<char>> {
    let k = seq_index_of(s, sep);
    if k < 0 { None } else { Some(first_piece(s.skip(k + sep.len()), sep)) }
}

/// The text of `v` before the first non-empty `sep` (see `first_piece`).
pub fn first_piece_of(v: &Vec<char>, sep: &Vec<char>) -> (out: Vec<char>)
    requires
        sep@.len() > 0,
    ensures
        out@ == first_piece(v@, sep@),
{
    match find_text(v, sep) {
        Some(k) => {
            let out = copy_range(v, 0, k);
            proof {
                assert(out@ == v@.take(k as int));
            }
            out
        },
        None => copy_range(v, 0, v.len()),
    }
}

/// The second piece of `v` split at the non-empty `sep` (see `second_piece`).
pub fn second_piece_of(v: &Vec<char>, sep: &Vec<char>) -> (out: Option<Vec<char>>)
    requires
        sep@.len() > 0,
    ensures
        match out {
            Some(p) => second_piece(v@, sep@) == Some(p@),
            None => second_piece(v@, sep@) is None,
        },
{
    match find_text(v, sep) {
        Some(k) => {
            let n = v.len();
            assert(k + sep@.len() <= n);
            let rest = copy_range(v, k + sep.len(), n);
            proof {
                assert(rest@ == v@.skip(k + sep@.len()));
            }
            Some(first_piece_of(&rest, sep))
        },
        None => None,
    }
}

/// `s` with every occurrence of `pat`, found from the left without overlap, removed
/// (`str::replace` with an empty replacement).
pub open spec fn remove_all(s: Seq<char>, pat: Seq<char>) -> Seq<char>
    decreases s.len(),
{
    if pat.len() == 0 {
        s
    } else {
        let k = seq_index_of(s, pat);
        if k < 0 {
            s
        } else {
            proof {
                lemma_seq_index_of(s, pat);
            }
            s.take(k) + remove_all(s.skip(k + pat.len()), pat)
        }
    }
}

/// `v` with every occurrence of `pat` removed (see `remove_all`).
pub fn remove_text(v: &Vec<char>, pat: &Vec<char>) -> (out: Vec<char>)
    ensures
        out@ == remove_all(v@, pat@),
{
    if pat.len() == 0 {
        return copy_range(v, 0, v.len());
    }
    let mut out: Vec<char> = Vec::new();
    let mut rest = copy_range(v, 0, v.len());
    assert(rest@ == v@);
    loop
        invariant
            pat@.len() > 0,
            out@ + remove_all(rest@, pat@) == remove_all(v@, pat@),
        decreases rest@.len(),
    {
        match find_text(&rest, pat) {
            Some(k) => {
                proof {
                    lemma_seq_index_of(rest@, pat@);
                }
                let n = rest.len();
                assert(k + pat@.len() <= n);
                let head = copy_range(&rest, 0, k);
                let tail = copy_range(&rest, k + pat.len(), n);
                proof {
                    assert(head@ == rest@.take(k as int));
                    assert(tail@ == rest@.skip(k + pat@.len()));
                    assert(out@ + head@ + remove_all(tail@, pat@) == out@ + remove_all(rest@, pat@));
                }
                let mut i: usize = 0;
                let ghost before = out@;
                while i < head.len()
                    invariant
                        i <= head.len(),
                        out@ == before + head@.take(i as int),
                    decreases head.len() - i,
                {
                    out.push(head[i]);
                    proof {
                        assert(out@ =~= before + head@.take(i + 1));
                    }
                    i += 1;
                }
                proof {
                    assert(head@.take(head@.len() as int) == head@);
                    assert((before + head@) + remove_all(tail@, pat@) == before + (head@ + remove_all(tail@, pat@)));
                }
                rest = tail;
            },
            None => {
                let ghost before = out@;
                let mut i: usize = 0;
                while i < rest.len()
                    invariant
                        i <= rest.len(),
                        out@ == before + rest@.take(i as int),
                    decreases rest.len() - i,
                {
                    out.push(rest[i]);
                    proof {
                        assert(out@ =~= before + rest@.take(i + 1));
                    }
                    i += 1;
                }
                proof {
                    assert(rest@.take(rest@.len() as int) == rest@);
                }
                return out;
            },
        }
    }
}

/// Whether `s` starts with `p`.
pub open spec fn starts_with(s: Seq<char>, p: Seq<char>) -> bool {
    s.len() >= p.len() && s.take(p.len() as int) == p
}

/// Whether `v` starts with `p`.
pub fn has_prefix(v: &Vec<char>, p: &Vec<char>) -> (b: bool)
    ensures
        b == starts_with(v@, p@),
{
    if p.len() > v.len() {
        return false;
    }
    let mut i: usize = 0;
    while i < p.len()
        invariant
            p@.len() <= v@.len(),
            i <= p@.len(),
            forall|j: int| 0 <= j < i ==> v@[j] == p@[j],
        decreases p@.len() - i,
    {
        if v[i] != p[i] {
            proof {
                assert(v@.take(p@.len() as int)[i as int] != p@[i as int]);
            }
            return false;
        }
        i += 1;
    }
    proof {
        assert(v@.take(p@.len() as int) =~= p@);
    }
    true
}

/// The pieces of `s` between the occurrences of `c` (`str::split` at a character).
pub open spec fn split_char(s: Seq<char>, c: char) -> Seq<Seq<char>>
    decreases s.len(),
{
    let k = first_index_of(s, c);
    if k < 0 {
        seq![s]
    } else {
        proof {
            lemma_first_index_of(s, c);
        }
        seq![s.take(k)] + split_char(s.skip(k + 1), c)
    }
}

/// The pieces of `v` between the occurrences of `c` (see `split_char`).
pub fn split_at_char(v: &Vec<char>, c: char) -> (out: Vec<Vec<char>>)
    ensures
        out@.map_values(|p: Vec<char>| p@) == split_char(v@, c),
{
    let mut out: Vec<Vec<char>> = Vec::new();
    let mut rest = copy_range(v, 0, v.len());
    assert(rest@ == v@);
    loop
        invariant
            out@.map_values(|p: Vec<char>| p@) + split_char(rest@, c) == split_char(v@, c),
        decreases rest@.len(),
    {
        let ghost before = out@.map_values(|p: Vec<char>| p@);
        match find_char(&rest, c) {
            Some(k) => {
                let n = rest.len();
                let head = copy_range(&rest, 0, k);
                let tail = copy_range(&rest, k + 1, n);
                proof {
                    lemma_first_index_of(rest@, c);
                    assert(head@ == rest@.take(k as int));
                    assert(tail@ == rest@.skip(k + 1));
                }
                out.push(head);
                proof {
                    assert(out@.map_values(|p: Vec<char>| p@) =~= before.push(head@));
                    assert(before.push(head@) + split_char(tail@, c) =~= before + split_char(rest@, c));
                }
                rest = tail;
            },
            None => {
                out.push(rest);
                proof {
                    assert(out@.map_values(|p: Vec<char>| p@) =~= before + split_char(rest@, c));
                }
                return out;
            },
        }
    }
}

/// `s` without the copies of `c` at its start.
pub open spec fn trim_start_char(s: Seq<char>, c: char) -> Seq<char>
    decreases s.len(),
{
    if s.len() > 0 && s[0] == c { trim_start_char(s.drop_first(), c) } else { s }
}

/// `s` without the copies of `c` at its end.
pub open spec fn trim_end_char(s: Seq<char>, c: char) -> Seq<char>
    decreases s.len(),
{
    if s.len() > 0 && s.last() == c { trim_end_char(s.drop_last(), c) } else { s }
}

/// `s` without the copies of `c` at either end (`str::trim_matches` with a character).
pub open spec fn trim_char(s: Seq<char>, c: char) -> Seq<char> {
    trim_end_char(trim_start_char(s, c), c)
}

/// `v` without the copies of `c` at either end (see `trim_char`).
pub fn trim_matches_char(v: &Vec<char>, c: char) -> (out: Vec<char>)
    ensures
        out@ == trim_char(v@, c),
{
    let mut lo: usize = 0;
    assert(v@.skip(0) == v@);
    while lo < v.len() && v[lo] == c
        invariant
            lo <= v.len(),
            trim_start_char(v@, c) == trim_start_char(v@.skip(lo as int), c),
        decreases v.len() - lo,
    {
        proof {
            assert(v@.skip(lo as int).drop_first() == v@.skip(lo + 1));
        }
        lo += 1;
    }
    let mut hi: usize = v.len();
    proof {
        assert(v@.skip(lo as int) == v@.subrange(lo as int, hi as int));
    }
    while hi > lo && v[hi - 1] == c
        invariant
            lo <= hi <= v.len(),
            trim_end_char(trim_start_char(v@, c), c) == trim_end_char(v@.subrange(lo as int, hi as int), c),
        decreases hi - lo,
    {
        proof {
            assert(v@.subrange(lo as int, hi as int).drop_last() == v@.subrange(lo as int, hi - 1));
        }
        hi -= 1;
    }
    proof {
        let s = v@.subrange(lo as int, hi as int);
        if lo < v.len() {
            assert(v@.skip(lo as int).len() > 0 && v@.skip(lo as int)[0] != c);
        }
        assert(trim_start_char(v@, c) == v@.skip(lo as int));
        if hi > lo {
            assert(s.last() != c);
        }
        assert(trim_end_char(s, c) == s);
    }
    copy_range(v, lo, hi)
}

/// The piece `n` (counting from 0) of `s` split at the non-empty `sep`, if there is one.
pub open spec fn nth_piece(s: Seq<char>, sep: Seq<char>, n: nat) -> Option<Seq<char>>
    decreases n,
{
    if n == 0 {
        Some(first_piece(s, sep))
    } else {
        let k = seq_index_of(s, sep);
        if k < 0 { None } else { nth_piece(s.skip(k + sep.len()), sep, (n - 1) as nat) }
    }
}

/// The piece `n` of `v` split at the non-empty `sep` (see `nth_piece`).
pub fn nth_piece_of(v: &Vec<char>, sep: &Vec<char>, n: usize) -> (r: Option<Vec<char>>)
    requires
        sep@.len() > 0,
    ensures
        match r {
            Some(p) => nth_piece(v@, sep@, n as nat) == Some(p@),
            None => nth_piece(v@, sep@, n as nat) is None,
        },
    decreases n,
{
    if n == 0 {
        return Some(first_piece_of(v, sep));
    }
    match find_text(v, sep) {
        Some(k) => {
            let total = v.len();
            assert(k + sep@.len() <= total);
            let rest = copy_range(v, k + sep.len(), total);
            proof {
                assert(rest@ == v@.skip(k + sep@.len()));
            }
            nth_piece_of(&rest, sep, n - 1)
        },
        None => None,
    }
}


/// Whether `pat` occurs in `s` (`str::contains`).
pub open spec fn has_text(s: Seq<char>, pat: Seq<char>) -> bool {
    seq_index_of(s, pat) >= 0
}

/// Whether `pat` occurs in `s`.
pub fn contains_text(s: &str, pat: &str) -> (b: bool)
    ensures
        b == has_text(s@, pat@),
{
    let v = chars_of(s);
    let p = chars_of(pat);
    if p.len() == 0 {
        proof {
            assert(v@.take(0) =~= p@);
        }
        return true;
    }
    find_text(&v, &p).is_some()
}

/// The last piece of `s` split at the non-empty `sep`: the text after its last occurrence,
/// found from the left without overlap, or all of `s`.
pub open spec fn last_piece(s: Seq<char>, sep: Seq<char>) -> Seq<char>
    decreases s.len(),
{
    if sep.len() == 0 || seq_index_of(s, sep) < 0 {
        s
    } else {
        proof {
            lemma_seq_index_of(s, sep);
        }
        last_piece(s.skip(seq_index_of(s, sep) + sep.len()), sep)
    }
}

/// The last piece of `v` split at the non-empty `sep` (see `last_piece`).
pub fn last_piece_of(v: &Vec<char>, sep: &Vec<char>) -> (out: Vec<char>)
    requires
        sep@.len() > 0,
    ensures
        out@ == last_piece(v@, sep@),
    decreases v@.len(),
{
    match find_text(v, sep) {
        Some(k) => {
            let total = v.len();
            let rest = copy_range(v, k + sep.len(), total);
            proof {
                assert(rest@ == v@.skip(k + sep@.len()));
            }
            last_piece_of(&rest, sep)
        },
        None => copy_range(v, 0, v.len()),
    }
}

/// The position of the first character of `s` that is `a` or `b`, or -1.
pub open spec fn first_of_either(s: Seq<char>, a: char, b: char) -> int
    decreases s.len(),
{
    if s.len() == 0 {
        -1
    } else if s[0] == a || s[0] == b {
        0
    } else if first_of_either(s.drop_first(), a, b) < 0 {
        -1
    } else {
        first_of_either(s.drop_first(), a, b) + 1
    }
}

/// `first_of_either` is -1 or a position holding `a` or `b`, with neither before it.
proof fn lemma_first_of_either(s: Seq<char>, a: char, b: char)
    ensures
        -1 <= first_of_either(s, a, b) < s.len(),
        first_of_either(s, a, b) >= 0 ==> (s[first_of_either(s, a, b)] == a || s[first_of_either(s, a, b)] == b),
        forall|j: int| 0 <= j < s.len() && (first_of_either(s, a, b) < 0 || j < first_of_either(s, a, b))
            ==> #[trigger] s[j] != a && s[j] != b,
    decreases s.len(),
{
    if s.len() > 0 && !(s[0] == a || s[0] == b) {
        lemma_first_of_either(s.drop_first(), a, b);
        assert forall|j: int| 1 <= j < s.len() implies #[trigger] s[j] == s.drop_first()[j - 1] by {}
    }
}

/// The second piece of `s` split where it holds `a` or `b` (`str::split` at either
/// character, then `nth(1)`), if `s` holds either.
pub open spec fn second_piece_at_either(s: Seq<char>, a: char, b: char) -> Option<Seq<char>> {
    let k = first_of_either(s, a, b);
    if k < 0 {
        None
    } else {
        let rest = s.skip(k + 1);
        let j = first_of_either(rest, a, b);
        Some(if j < 0 { rest } else { rest.take(j) })
    }
}

/// The position of the first character of `v` from `from` on that is `a` or `b`.
fn find_either(v: &Vec<char>, from: usize, a: char, b: char) -> (r: Option<usize>)
    requires
        from <= v@.len(),
    ensures
        match r {
            Some(k) => from <= k < v@.len() && first_of_either(v@.skip(from as int), a, b) == k - from,
            None => first_of_either(v@.skip(from as int), a, b) < 0,
        },
{
    proof {
        lemma_first_of_either(v@.skip(from as int), a, b);
    }
    let mut i: usize = from;
    while i < v.len()
        invariant
            from <= i <= v@.len(),
            forall|j: int| from <= j < i ==> v@[j] != a && v@[j] != b,
            -1 <= first_of_either(v@.skip(from as int), a, b) < v@.len() - from,
            first_of_either(v@.skip(from as int), a, b) >= 0 ==> (v@.skip(from as int)[first_of_either(v@.skip(from as int), a, b)] == a
                || v@.skip(from as int)[first_of_either(v@.skip(from as int), a, b)] == b),
            forall|j: int| 0 <= j < v@.len() - from && (first_of_either(v@.skip(from as int), a, b) < 0 || j < first_of_either(v@.skip(from as int), a, b))
                ==> #[trigger] v@.skip(from as int)[j] != a && v@.skip(from as int)[j] != b,
        decreases v@.len() - i,
    {
        if v[i] == a || v[i] == b {
            proof {
                assert(v@.skip(from as int)[i - from] == v@[i as int]);
                let f = first_of_either(v@.skip(from as int), a, b);
                if f >= 0 && f < i - from {
                    assert(v@.skip(from as int)[f] == v@[from + f]);
                }
            }
            return Some(i);
        }
        proof {
            assert(v@.skip(from as int)[i - from] == v@[i as int]);
        }
        i += 1;
    }
    proof {
        let f = first_of_either(v@.skip(from as int), a, b);
        if f >= 0 {
            assert(v@.skip(from as int)[f] == v@[from + f]);
        }
    }
    None
}

/// The second piece of `v` split at `a` or `b` (see `second_piece_at_either`).
pub fn second_piece_at_either_of(v: &Vec<char>, a: char, b: char) -> (r: Option<Vec<char>>)
    ensures
        match r {
            Some(p) => second_piece_at_either(v@, a, b) == Some(p@),
            None => second_piece_at_either(v@, a, b) is None,
        },
{
    proof {
        assert(v@.skip(0) == v@);
    }
    let k = match find_either(v, 0, a, b) {
        Some(k) => k,
        None => return None,
    };
    let n = v.len();
    proof {
        assert(v@.skip(k + 1) == v@.skip((k + 1) as int));
    }
    match find_either(v, k + 1, a, b) {
        Some(j) => {
            let out = copy_range(v, k + 1, j);
            proof {
                assert(out@ =~= v@.skip(k + 1).take(j - (k + 1)));
            }
            Some(out)
        },
        None => {
            let out = copy_range(v, k + 1, n);
            proof {
                assert(out@ =~= v@.skip(k + 1));
            }
            Some(out)
        },
    }
}


/// The leading run of characters of `t` that are not white space.
pub open spec fn word_prefix(t: Seq<char>) -> Seq<char>
    decreases t.len(),
{
    if t.len() > 0 && !is_ws(t[0]) {
        seq![t[0]] + word_prefix(t.drop_first())
    } else {
        Seq::empty()
    }
}

/// The first word of `s` (`split_whitespace().next()`), if it has one.
pub open spec fn first_word(s: Seq<char>) -> Option<Seq<char>> {
    let t = trim_start(s);
    if t.len() == 0 { None } else { Some(word_prefix(t)) }
}

proof fn lemma_word_prefix(t: Seq<char>, k: int)
    requires
        0 <= k <= t.len(),
        forall|j: int| 0 <= j < k ==> !is_ws(#[trigger] t[j]),
        k == t.len() || is_ws(t[k]),
    ensures
        word_prefix(t) == t.take(k),
    decreases k,
{
    if k > 0 {
        lemma_word_prefix(t.drop_first(), k - 1);
        assert(seq![t[0]] + t.drop_first().take(k - 1) =~= t.take(k));
    } else {
        assert(t.take(0) =~= Seq::<char>::empty());
    }
}

/// The first word of `s` (see `first_word`).
pub fn first_word_of(s: &str) -> (r: Option<String>)
    ensures
        crate::post::opt_view(r) == first_word(s@),
{
    let v = chars_of(s);
    let n = v.len();
    let mut lo: usize = 0;
    while lo < n && is_whitespace(v[lo])
        invariant
            n == v@.len(),
            lo <= n,
            forall|j: int| 0 <= j < lo ==> is_ws(#[trigger] v@[j]),
        decreases n - lo,
    {
        lo += 1;
    }
    let ghost rest = v@.subrange(lo as int, n as int);
    proof {
        lemma_trim_start_skip(v@, lo as int);
    }
    if lo == n {
        proof {
            assert(rest =~= Seq::<char>::empty());
        }
        return None;
    }
    proof {
        assert(rest[0] == v@[lo as int]);
        assert(trim_start(rest) == rest);
    }
    let mut hi: usize = lo;
    while hi < n && !is_whitespace(v[hi])
        invariant
            n == v@.len(),
            lo <= hi <= n,
            forall|j: int| lo <= j < hi ==> !is_ws(#[trigger] v@[j]),
        decreases n - hi,
    {
        hi += 1;
    }
    proof {
        assert forall|j: int| 0 <= j < hi - lo implies !is_ws(#[trigger] rest[j]) by {
            assert(rest[j] == v@[lo + j]);
        }
        if hi < n {
            assert(rest[hi - lo] == v@[hi as int]);
        }
        lemma_word_prefix(rest, hi - lo);
        assert(rest.take(hi - lo) =~= v@.subrange(lo as int, hi as int));
    }
    Some(string_of_range(&v, lo, hi))
}


/// Pieces of text joined by `sep` (`join`).
pub open spec fn join_with(pieces: Seq<Seq<char>>, sep: Seq<char>) -> Seq<char>
    decreases pieces.len(),
{
    if pieces.len() == 0 {
        Seq::empty()
    } else if pieces.len() == 1 {
        pieces[0]
    } else {
        join_with(pieces.drop_last(), sep) + sep + pieces.last()
    }
}

/// Joins pieces of text with `sep` between them.
pub fn join_strings(pieces: &Vec<String>, sep: &str) -> (out: String)
    ensures
        out@ == join_with(views(pieces@), sep@),
{
    let mut out = String::new();
    let mut i: usize = 0;
    while i < pieces.len()
        invariant
            i <= pieces.len(),
            out@ == join_with(views(pieces@.take(i as int)), sep@),
        decreases pieces.len() - i,
    {
        proof {
            assert(views(pieces@.take(i + 1)).drop_last() =~= views(pieces@.take(i as int)));
            assert(views(pieces@.take(i + 1)).last() == pieces@[i as int]@);
            if i == 0 {
                assert(views(pieces@.take(1)) =~= seq![pieces@[0]@]);
            }
        }
        if i > 0 {
            out.append(sep);
        }
        out.append(pieces[i].as_str());
        i += 1;
    }
    proof {
        assert(pieces@.take(pieces@.len() as int) == pieces@);
    }
    out
}


/// The text as `str::to_lowercase` gives it: each character in its Unicode lowercase
/// mapping.
pub uninterp spec fn lowercase_text(s: Seq<char>) -> Seq<char>;

/// The text in lowercase (`str::to_lowercase`).
#[verifier::external_body]
pub(crate) fn to_lowercase(s: &str) -> (r: String)
    ensures
        r@ == lowercase_text(s@),
{
    s.to_lowercase()
}

} // verus!
