//! The order in which posts and events are kept, and stable sorting by it.

use vstd::prelude::*;
use std::cmp::Ordering;
use crate::post::SsufidPost;
use crate::calendar::SsufidCalendar;
use crate::text::{lex_order, compare_text};

verus! {

/// `p` witnesses that `after` is `before` sorted stably by `le`: `after[i]` is
/// `before[p[i]]`, `p` is a permutation of the positions, `after` is ordered by `le`, and elements that
/// `le` cannot tell apart keep their relative order.
pub open spec fn stable_sort_witness<T>(
    before: Seq<T>,
    after: Seq<T>,
    le: spec_fn(T, T) -> bool,
    p: Seq<int>,
) -> bool {
    &&& p.len() == before.len()
    &&& after.len() == before.len()
    &&& forall|i: int| 0 <= i < p.len() ==> 0 <= #[trigger] p[i] < before.len()
    &&& forall|i: int| 0 <= i < p.len() ==> #[trigger] after[i] == before[p[i]]
    &&& forall|i: int, j: int| 0 <= i < j < p.len() ==> p[i] != p[j]
    &&& forall|k: int| #![trigger before[k]] 0 <= k < before.len() ==> exists|i: int| 0 <= i < p.len() && p[i] == k
    &&& forall|i: int, j: int| 0 <= i < j < after.len() ==> le(after[i], after[j])
    &&& forall|i: int, j: int| 0 <= i < j < after.len() && le(after[j], after[i]) ==> p[i] < p[j]
}

/// `after` is `before` sorted stably by `le`.
pub open spec fn is_stable_sort_of<T>(before: Seq<T>, after: Seq<T>, le: spec_fn(T, T) -> bool) -> bool {
    exists|p: Seq<int>| stable_sort_witness(before, after, le, p)
}

/// Posts are ordered by the instant they were created.
pub open spec fn post_le(a: SsufidPost, b: SsufidPost) -> bool {
    a.created_at.unix_nanos <= b.created_at.unix_nanos
}

/// Events are ordered by start instant, then by identifier.
pub open spec fn event_le(a: SsufidCalendar, b: SsufidCalendar) -> bool {
    ||| a.starts_at.unix_nanos < b.starts_at.unix_nanos
    ||| (a.starts_at.unix_nanos == b.starts_at.unix_nanos && lex_order(a.id@, b.id@) <= 0)
}

/// Whether `o` is the three-way comparison of integers `a` and `b`.
pub open spec fn orders_as(o: Ordering, a: i128, b: i128) -> bool {
    &&& (o == Ordering::Less) == (a < b)
    &&& (o == Ordering::Equal) == (a == b)
    &&& (o == Ordering::Greater) == (a > b)
}

/// The order of two posts by creation instant.
pub fn compare_posts(a: &SsufidPost, b: &SsufidPost) -> (o: Ordering)
    ensures
        orders_as(o, a.created_at.unix_nanos, b.created_at.unix_nanos),
{
    if a.created_at.unix_nanos < b.created_at.unix_nanos {
        Ordering::Less
    } else if a.created_at.unix_nanos == b.created_at.unix_nanos {
        Ordering::Equal
    } else {
        Ordering::Greater
    }
}

/// The order of two events by start instant, then identifier.
pub fn compare_events(a: &SsufidCalendar, b: &SsufidCalendar) -> (o: Ordering)
    ensures
        (o == Ordering::Less) == (event_le(*a, *b) && !event_le(*b, *a)),
        (o == Ordering::Equal) == (event_le(*a, *b) && event_le(*b, *a)),
        (o == Ordering::Greater) == (!event_le(*a, *b) && event_le(*b, *a)),
{
    proof {
        crate::text::lemma_lex_order_antisymmetric(a.id@, b.id@);
    }
    if a.starts_at.unix_nanos < b.starts_at.unix_nanos {
        Ordering::Less
    } else if a.starts_at.unix_nanos > b.starts_at.unix_nanos {
        Ordering::Greater
    } else {
        let c = compare_text(a.id.as_str(), b.id.as_str());
        if c < 0 {
            Ordering::Less
        } else if c == 0 {
            Ordering::Equal
        } else {
            Ordering::Greater
        }
    }
}

/// Sorts posts stably by creation instant (`slice::sort_by`, whose sort is stable).
#[verifier::external_body]
pub(crate) fn sort_posts(v: &mut Vec<SsufidPost>)
    ensures
        is_stable_sort_of(old(v)@, final(v)@, |a: SsufidPost, b: SsufidPost| post_le(a, b)),
{
    v.sort_by(|a, b| compare_posts(a, b));
}

/// Sorts events stably by start instant, then identifier (`slice::sort_by`, whose sort
/// is stable).
#[verifier::external_body]
pub(crate) fn sort_events(v: &mut Vec<SsufidCalendar>)
    ensures
        is_stable_sort_of(old(v)@, final(v)@, |a: SsufidCalendar, b: SsufidCalendar| event_le(a, b)),
{
    v.sort_by(|a, b| compare_events(a, b));
}

} // verus!
