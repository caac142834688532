//! What a run does with the posts and events it collected: which of them it serves, and
//! when it tries a crawl again.

use vstd::prelude::*;
use crate::datetime::{Timestamp, NANOS_PER_DAY, MIN_UNIX_NANOS, MAX_UNIX_NANOS, now_utc};
use crate::post::{SsufidPost, SsufidSiteData};
use crate::calendar::{SsufidCalendar, SsufidCalendarSiteData};
use crate::text::views;

verus! {

/// The most posts a site serves.
pub const POST_COUNT_LIMIT: u32 = 100;

/// The days of past events a calendar serves by default.
pub const CALENDAR_DAY_LIMIT: u32 = 30;

/// The crawls tried before a run gives up.
pub const RETRY_COUNT: u32 = 3;

/// The events of `s` that start no earlier than `cutoff` (in nanoseconds since the
/// epoch), in their order.
pub open spec fn starting_from(s: Seq<SsufidCalendar>, cutoff: int) -> Seq<SsufidCalendar>
    decreases s.len(),
{
    if s.len() == 0 {
        Seq::empty()
    } else if s.last().starts_at.unix_nanos >= cutoff {
        starting_from(s.drop_last(), cutoff).push(s.last())
    } else {
        starting_from(s.drop_last(), cutoff)
    }
}

/// The instant `days` days before `now`, in nanoseconds since the epoch.
pub open spec fn cutoff_nanos(now: Timestamp, days: u32) -> int {
    now.unix_nanos - days * NANOS_PER_DAY
}

/// The events kept for a calendar limited to `days` days back from `now`: all of them
/// when `days` is 0, otherwise those that start no earlier than `days` days before
/// `now`.
pub open spec fn within_days(s: Seq<SsufidCalendar>, days: u32, now: Timestamp) -> Seq<SsufidCalendar> {
    if days == 0 {
        s
    } else {
        starting_from(s, cutoff_nanos(now, days))
    }
}

/// Whether `days` days back from `now` is still an instant that dates can hold.
pub open spec fn cutoff_in_range(now: Timestamp, days: u32) -> bool {
    days == 0 || cutoff_nanos(now, days) >= MIN_UNIX_NANOS
}

/// Keeps the events that start no earlier than `days` days before `now`; all of them
/// when `days` is 0.
pub fn filter_calendar_entries_by_days_at(entries: Vec<SsufidCalendar>, days: u32, now: Timestamp) -> (r: Vec<SsufidCalendar>)
    requires
        MIN_UNIX_NANOS <= now.unix_nanos <= MAX_UNIX_NANOS,
        cutoff_in_range(now, days),
    ensures
        r@ == within_days(entries@, days, now),
{
    if days == 0 {
        return entries;
    }
    let cutoff: i128 = now.unix_nanos - (days as i128) * NANOS_PER_DAY;
    let ghost src = entries@;
    let mut kept: Vec<SsufidCalendar> = Vec::new();
    for item in it: entries
        invariant
            it.seq() == src,
            cutoff == cutoff_nanos(now, days),
            kept@ == starting_from(it.seq().take(it.index() as int), cutoff as int),
    {
        proof {
            assert(it.seq().take(it.index() + 1).drop_last() == it.seq().take(it.index() as int));
        }
        if item.starts_at.unix_nanos >= cutoff {
            kept.push(item);
        }
    }
    proof {
        assert(src.take(src.len() as int) == src);
    }
    kept
}

/// Keeps the events that start no earlier than `days` days before the current instant;
/// all of them when `days` is 0. The instant is the clock's; for any instant it might
/// be, `r` is the filter at that instant.
pub fn filter_calendar_entries_by_days(entries: Vec<SsufidCalendar>, days: u32) -> (r: Option<Vec<SsufidCalendar>>)
    ensures
        r matches Some(v) ==> exists|now: Timestamp| cutoff_in_range(now, days) && v@ == within_days(entries@, days, now),
        r is None ==> days > 0,
{
    let now = now_utc();
    if days > 0 && now.unix_nanos - (days as i128) * NANOS_PER_DAY < MIN_UNIX_NANOS {
        return None;
    }
    let ghost src = entries@;
    let kept = filter_calendar_entries_by_days_at(entries, days, now);
    assert(cutoff_in_range(now, days) && kept@ == within_days(src, days, now));
    Some(kept)
}

/// The newest `limit` posts of `entries`, which run from oldest to newest, newest first.
pub fn newest_first(entries: Vec<SsufidPost>, limit: usize) -> (r: Vec<SsufidPost>)
    ensures
        r@ == entries@.reverse().take(if limit < entries@.len() { limit as int } else { entries@.len() as int }),
{
    let n = entries.len();
    let count = if limit < n { limit } else { n };
    let mut out: Vec<SsufidPost> = Vec::new();
    let mut rest = entries;
    let ghost src = rest@;
    while out.len() < count
        invariant
            n == src.len(),
            count <= n,
            out.len() <= count,
            rest@ == src.take(n - out.len()),
            out@ == src.reverse().take(out.len() as int),
        decreases count - out.len(),
    {
        let ghost before = out@;
        let p = rest.pop().unwrap();
        out.push(p);
        proof {
            assert(out@ =~= src.reverse().take(out.len() as int));
            assert(rest@ =~= src.take(n - out.len()));
        }
    }
    out
}

/// The events of `entries`, in reverse order.
pub fn reversed_events(entries: Vec<SsufidCalendar>) -> (r: Vec<SsufidCalendar>)
    ensures
        r@ == entries@.reverse(),
{
    let n = entries.len();
    let mut out: Vec<SsufidCalendar> = Vec::new();
    let mut rest = entries;
    let ghost src = rest@;
    while rest.len() > 0
        invariant
            n == src.len(),
            rest@ == src.take(rest.len() as int),
            out.len() + rest.len() == n,
            out@ == src.reverse().take(out.len() as int),
        decreases rest.len(),
    {
        let p = rest.pop().unwrap();
        out.push(p);
        proof {
            assert(out@ =~= src.reverse().take(out.len() as int));
            assert(rest@ =~= src.take(rest.len() as int));
        }
    }
    proof {
        assert(out@ =~= src.reverse());
    }
    out
}

/// The site data served for a site whose merged posts, oldest first, are `entries`:
/// the newest `POST_COUNT_LIMIT` posts, newest first.
pub fn post_site_data(title: String, source: String, description: String, entries: Vec<SsufidPost>) -> (d: SsufidSiteData)
    ensures
        d.title == title,
        d.source == source,
        d.description == description,
        d.items@ == entries@.reverse().take(if (POST_COUNT_LIMIT as int) < entries@.len() { POST_COUNT_LIMIT as int } else { entries@.len() as int }),
{
    SsufidSiteData { title, source, description, items: newest_first(entries, POST_COUNT_LIMIT as usize) }
}

/// The calendar data served for a calendar whose merged events, earliest first, are
/// `entries`: those within `days` days back from `now`, latest first.
pub fn calendar_site_data_at(
    title: String,
    source: String,
    description: String,
    entries: Vec<SsufidCalendar>,
    days: u32,
    now: Timestamp,
) -> (d: SsufidCalendarSiteData)
    requires
        MIN_UNIX_NANOS <= now.unix_nanos <= MAX_UNIX_NANOS,
        cutoff_in_range(now, days),
    ensures
        d.title == title,
        d.source == source,
        d.description == description,
        d.items@ == within_days(entries@, days, now).reverse(),
{
    let kept = filter_calendar_entries_by_days_at(entries, days, now);
    SsufidCalendarSiteData { title, source, description, items: reversed_events(kept) }
}

/// What a run does next while it tries a crawl again and again.
#[derive(Clone, Copy, Debug, PartialEq, Eq)]
pub enum RetryAction {
    /// Make attempt number `n` (counting from 1).
    Attempt(u32),
    /// The last attempt succeeded: serve its result.
    Succeed,
    /// Every allowed attempt failed: report that the attempts were exceeded.
    GiveUp,
}

/// The next action after `made` attempts out of `retry_count`, of which the last one,
/// if any, succeeded when `last_succeeded` holds.
pub open spec fn spec_next_retry_action(made: u32, retry_count: u32, last_succeeded: bool) -> RetryAction {
    if made > 0 && last_succeeded {
        RetryAction::Succeed
    } else if made < retry_count {
        RetryAction::Attempt((made + 1) as u32)
    } else {
        RetryAction::GiveUp
    }
}

/// The next action after `made` attempts out of `retry_count`.
pub fn next_retry_action(made: u32, retry_count: u32, last_succeeded: bool) -> (a: RetryAction)
    requires
        made <= retry_count,
    ensures
        a == spec_next_retry_action(made, retry_count, last_succeeded),
{
    if made > 0 && last_succeeded {
        RetryAction::Succeed
    } else if made < retry_count {
        RetryAction::Attempt(made + 1)
    } else {
        RetryAction::GiveUp
    }
}

/// The attempts a run makes when the attempts would succeed as `outcomes` says, and
/// whether it ends in success.
pub open spec fn retry_run(outcomes: Seq<bool>, retry_count: u32, made: u32) -> (int, bool)
    decreases retry_count - made,
{
    if made >= retry_count || made >= outcomes.len() {
        (made as int, false)
    } else if outcomes[made as int] {
        ((made + 1) as int, true)
    } else {
        retry_run(outcomes, retry_count, (made + 1) as u32)
    }
}

/// A run makes at most `retry_count` attempts; it succeeds exactly when one of the first
/// `retry_count` attempts succeeds, and then stops right after the first success.
pub proof fn law_retry_bounded(outcomes: Seq<bool>, retry_count: u32)
    requires
        outcomes.len() >= retry_count,
    ensures
        retry_run(outcomes, retry_count, 0).0 <= retry_count,
        retry_run(outcomes, retry_count, 0).1 <==> exists|i: int| 0 <= i < retry_count && outcomes[i],
        retry_run(outcomes, retry_count, 0).1 ==> outcomes[retry_run(outcomes, retry_count, 0).0 - 1]
            && forall|i: int| 0 <= i < retry_run(outcomes, retry_count, 0).0 - 1 ==> !outcomes[i],
{
    lemma_retry_run(outcomes, retry_count, 0);
}

proof fn lemma_retry_run(outcomes: Seq<bool>, retry_count: u32, made: u32)
    requires
        outcomes.len() >= retry_count,
        made <= retry_count,
    ensures
        made <= retry_run(outcomes, retry_count, made).0 <= retry_count,
        retry_run(outcomes, retry_count, made).1 <==> exists|i: int| made <= i < retry_count && outcomes[i],
        retry_run(outcomes, retry_count, made).1 ==> outcomes[retry_run(outcomes, retry_count, made).0 - 1]
            && forall|i: int| made <= i < retry_run(outcomes, retry_count, made).0 - 1 ==> !outcomes[i],
    decreases retry_count - made,
{
    if made < retry_count && !outcomes[made as int] {
        lemma_retry_run(outcomes, retry_count, (made + 1) as u32);
        if exists|i: int| made <= i < retry_count && outcomes[i] {
            let i = choose|i: int| made <= i < retry_count && outcomes[i];
            assert(i != made);
        }
    }
}

/// Each step of `next_retry_action` follows `retry_run`: after a failed attempt it
/// attempts again while attempts are left, and gives up once none are.
pub proof fn law_retry_step_agrees(made: u32, retry_count: u32, last_succeeded: bool)
    requires
        made <= retry_count,
    ensures
        made < retry_count && !(made > 0 && last_succeeded) ==> spec_next_retry_action(made, retry_count, last_succeeded) == RetryAction::Attempt((made + 1) as u32),
        made == retry_count && !last_succeeded ==> spec_next_retry_action(made, retry_count, last_succeeded) == RetryAction::GiveUp,
        made > 0 && last_succeeded ==> spec_next_retry_action(made, retry_count, last_succeeded) == RetryAction::Succeed,
{
}


/// Whether a run is asked both to run only some sites and to leave some out, which it refuses.
pub open spec fn spec_selection_conflicts(only: Seq<Seq<char>>, except: Seq<Seq<char>>) -> bool {
    only.len() > 0 && except.len() > 0
}

/// Whether the site `id` runs: when some sites are chosen, exactly those; otherwise,
/// when some are left out, every other one; otherwise every site.
pub open spec fn spec_site_selected(id: Seq<char>, only: Seq<Seq<char>>, except: Seq<Seq<char>>) -> bool {
    if only.len() > 0 {
        only.contains(id)
    } else if except.len() > 0 {
        !except.contains(id)
    } else {
        true
    }
}

/// Whether a run is asked both to run only some sites and to leave some out.
pub fn selection_conflicts(only: &Vec<String>, except: &Vec<String>) -> (b: bool)
    ensures
        b == spec_selection_conflicts(views(only@), views(except@)),
{
    only.len() > 0 && except.len() > 0
}

/// Whether one of `names` is `id`.
fn names_contain(names: &Vec<String>, id: &str) -> (b: bool)
    ensures
        b == views(names@).contains(id@),
{
    let wanted = String::from_str(id);
    let mut i: usize = 0;
    while i < names.len()
        invariant
            i <= names.len(),
            wanted@ == id@,
            forall|j: int| 0 <= j < i ==> names@[j]@ != id@,
        decreases names.len() - i,
    {
        if names[i] == wanted {
            proof {
                assert(views(names@)[i as int] == id@);
            }
            return true;
        }
        i += 1;
    }
    proof {
        if views(names@).contains(id@) {
            let j = choose|j: int| 0 <= j < views(names@).len() && views(names@)[j] == id@;
            assert(names@[j]@ == id@);
        }
    }
    false
}

/// Whether the site `id` runs (see `spec_site_selected`).
pub fn site_selected(id: &str, only: &Vec<String>, except: &Vec<String>) -> (b: bool)
    ensures
        b == spec_site_selected(id@, views(only@), views(except@)),
{
    if only.len() > 0 {
        names_contain(only, id)
    } else if except.len() > 0 {
        !names_contain(except, id)
    } else {
        true
    }
}

} // verus!
