//! Merging freshly crawled posts and events into those kept from earlier runs.

use vstd::prelude::*;
use indexmap::IndexMap;
use crate::datetime::Timestamp;
use crate::text::trim;
use crate::post::SsufidPost;
use crate::calendar::SsufidCalendar;
use crate::order::{is_stable_sort_of, post_le, event_le, sort_posts, sort_events};
use crate::entry_map::{lookup, keyed_by, only_at, absent, lemma_lookup_insert, lemma_insert_keyed, lemma_lookup_at, lemma_lookup_sorted, lemma_sorted_only_at, unique_keys, key_pos, entries_insert, entry_values, lemma_key_pos, lemma_insert_unique, lemma_sort_keeps_unique, post_entries, event_entries, post_map_new, post_map_insert, post_map_get, post_map_sort, post_map_into_values, event_map_new, event_map_insert, event_map_get, event_map_sort, event_map_into_values};

verus! {

/// The order of map entries by their posts.
pub open spec fn post_entry_le(a: (Seq<char>, SsufidPost), b: (Seq<char>, SsufidPost)) -> bool {
    post_le(a.1, b.1)
}

/// The order of map entries by their events.
pub open spec fn event_entry_le(a: (Seq<char>, SsufidCalendar), b: (Seq<char>, SsufidCalendar)) -> bool {
    event_le(a.1, b.1)
}

/// The entries of a map built by inserting `s`'s posts in order under their identifiers.
pub open spec fn collect_posts(s: Seq<SsufidPost>) -> Seq<(Seq<char>, SsufidPost)>
    decreases s.len(),
{
    if s.len() == 0 {
        Seq::empty()
    } else {
        entries_insert(collect_posts(s.drop_last()), s.last().id@, s.last())
    }
}

/// The entries of a map built by inserting `s`'s events in order under their identifiers.
pub open spec fn collect_events(s: Seq<SsufidCalendar>) -> Seq<(Seq<char>, SsufidCalendar)>
    decreases s.len(),
{
    if s.len() == 0 {
        Seq::empty()
    } else {
        entries_insert(collect_events(s.drop_last()), s.last().id@, s.last())
    }
}

/// `p` marked as updated at `now`, keeping the creation instant `created_at`.
pub open spec fn restamped(p: SsufidPost, created_at: Timestamp, now: Timestamp) -> SsufidPost {
    SsufidPost { created_at: created_at, updated_at: Some(now), ..p }
}

/// One step of the merge: a post with a new identifier is added; one whose stored post
/// has the same contents changes nothing; otherwise it replaces the stored post, and
/// when it carries no update instant it keeps the stored creation instant and is marked
/// as updated at `now`.
pub open spec fn merge_post_step(e: Seq<(Seq<char>, SsufidPost)>, p: SsufidPost, now: Timestamp) -> Seq<(Seq<char>, SsufidPost)> {
    let i = key_pos(e, p.id@);
    if i < 0 {
        entries_insert(e, p.id@, p)
    } else if e[i].1.spec_contents_eq(p) {
        e
    } else if p.updated_at is Some {
        entries_insert(e, p.id@, p)
    } else {
        entries_insert(e, p.id@, restamped(p, e[i].1.created_at, now))
    }
}

/// The merge steps of `news`, in order, from the entries `e`.
pub open spec fn merge_post_fold(e: Seq<(Seq<char>, SsufidPost)>, news: Seq<SsufidPost>, now: Timestamp) -> Seq<(Seq<char>, SsufidPost)>
    decreases news.len(),
{
    if news.len() == 0 {
        e
    } else {
        merge_post_step(merge_post_fold(e, news.drop_last(), now), news.last(), now)
    }
}

/// `result` is the merge of `new` into `old` at `now`: the stored posts, one per
/// identifier and sorted stably by creation, take the new posts, sorted stably by
/// creation, one merge step at a time.
pub open spec fn merged_posts(old: Seq<SsufidPost>, new: Seq<SsufidPost>, now: Timestamp, result: Seq<SsufidPost>) -> bool {
    exists|so: Seq<(Seq<char>, SsufidPost)>, sn: Seq<SsufidPost>|
        {
            &&& is_stable_sort_of(collect_posts(old), so, |a: (Seq<char>, SsufidPost), b: (Seq<char>, SsufidPost)| post_le(a.1, b.1))
            &&& is_stable_sort_of(new, sn, |a: SsufidPost, b: SsufidPost| post_le(a, b))
            &&& result == entry_values(merge_post_fold(so, sn, now))
        }
}

/// One step of the event merge: an event with a new identifier is added; one whose
/// stored event has the same contents changes nothing; otherwise it replaces it.
pub open spec fn merge_event_step(e: Seq<(Seq<char>, SsufidCalendar)>, c: SsufidCalendar) -> Seq<(Seq<char>, SsufidCalendar)> {
    let i = key_pos(e, c.id@);
    if i >= 0 && e[i].1.spec_contents_eq(c) {
        e
    } else {
        entries_insert(e, c.id@, c)
    }
}

/// The event merge steps of `news`, in order, from the entries `e`.
pub open spec fn merge_event_fold(e: Seq<(Seq<char>, SsufidCalendar)>, news: Seq<SsufidCalendar>) -> Seq<(Seq<char>, SsufidCalendar)>
    decreases news.len(),
{
    if news.len() == 0 {
        e
    } else {
        merge_event_step(merge_event_fold(e, news.drop_last()), news.last())
    }
}

/// `result` is the merge of the events `new` into `old`.
pub open spec fn merged_events(old: Seq<SsufidCalendar>, new: Seq<SsufidCalendar>, result: Seq<SsufidCalendar>) -> bool {
    exists|so: Seq<(Seq<char>, SsufidCalendar)>, sn: Seq<SsufidCalendar>|
        {
            &&& is_stable_sort_of(collect_events(old), so, |a: (Seq<char>, SsufidCalendar), b: (Seq<char>, SsufidCalendar)| event_le(a.1, b.1))
            &&& is_stable_sort_of(new, sn, |a: SsufidCalendar, b: SsufidCalendar| event_le(a, b))
            &&& result == entry_values(merge_event_fold(so, sn))
        }
}

proof fn lemma_collect_posts_unique(s: Seq<SsufidPost>)
    ensures
        unique_keys(collect_posts(s)),
    decreases s.len(),
{
    if s.len() > 0 {
        lemma_collect_posts_unique(s.drop_last());
        lemma_insert_unique(collect_posts(s.drop_last()), s.last().id@, s.last());
    }
}

proof fn lemma_collect_events_unique(s: Seq<SsufidCalendar>)
    ensures
        unique_keys(collect_events(s)),
    decreases s.len(),
{
    if s.len() > 0 {
        lemma_collect_events_unique(s.drop_last());
        lemma_insert_unique(collect_events(s.drop_last()), s.last().id@, s.last());
    }
}

proof fn lemma_merge_post_step_unique(e: Seq<(Seq<char>, SsufidPost)>, p: SsufidPost, now: Timestamp)
    requires
        unique_keys(e),
    ensures
        unique_keys(merge_post_step(e, p, now)),
{
    lemma_insert_unique(e, p.id@, p);
    lemma_key_pos(e, p.id@);
    if key_pos(e, p.id@) >= 0 {
        lemma_insert_unique(e, p.id@, restamped(p, e[key_pos(e, p.id@)].1.created_at, now));
    }
}

proof fn lemma_merge_event_step_unique(e: Seq<(Seq<char>, SsufidCalendar)>, c: SsufidCalendar)
    requires
        unique_keys(e),
    ensures
        unique_keys(merge_event_step(e, c)),
{
    lemma_insert_unique(e, c.id@, c);
}

/// Merges `new_entries` into `old_entries` at the instant `now` (see `merged_posts`).
pub fn merge_entries_at(old_entries: Vec<SsufidPost>, new_entries: Vec<SsufidPost>, now: Timestamp) -> (r: Vec<SsufidPost>)
    ensures
        merged_posts(old_entries@, new_entries@, now, r@),
{
    let ghost old_seq = old_entries@;
    let ghost new_seq = new_entries@;
    let mut map = post_map_new();
    for post in it: old_entries
        invariant
            it.seq() == old_seq,
            post_entries(map) == collect_posts(it.seq().take(it.index() as int)),
    {
        let ghost before = it.seq().take(it.index() as int);
        let id = post.id.clone();
        post_map_insert(&mut map, id, post);
        proof {
            assert(it.seq().take(it.index() + 1).drop_last() == before);
        }
    }
    proof {
        assert(old_seq.take(old_seq.len() as int) == old_seq);
        lemma_collect_posts_unique(old_seq);
    }
    let ghost collected = post_entries(map);
    post_map_sort(&mut map);
    let ghost so = post_entries(map);
    proof {
        lemma_sort_keeps_unique(collected, so, |a: (Seq<char>, SsufidPost), b: (Seq<char>, SsufidPost)| post_le(a.1, b.1));
    }
    let mut news = new_entries;
    sort_posts(&mut news);
    let ghost sn = news@;
    for post in it: news
        invariant
            it.seq() == sn,
            post_entries(map) == merge_post_fold(so, it.seq().take(it.index() as int), now),
            unique_keys(post_entries(map)),
    {
        let ghost before = it.seq().take(it.index() as int);
        let ghost e = post_entries(map);
        let id = post.id.clone();
        let found: Option<Option<Timestamp>> = match post_map_get(&map, id.as_str()) {
            None => None,
            Some(stored) => {
                if stored.contents_eq(&post) {
                    Some(None)
                } else {
                    Some(Some(stored.created_at))
                }
            },
        };
        proof {
            lemma_key_pos(e, post.id@);
            lemma_merge_post_step_unique(e, post, now);
            assert(it.seq().take(it.index() + 1).drop_last() == before);
            assert(it.seq().take(it.index() + 1).last() == post);
        }
        match found {
            None => {
                post_map_insert(&mut map, id, post);
            },
            Some(None) => {},
            Some(Some(created_at)) => {
                if post.updated_at.is_some() {
                    post_map_insert(&mut map, id, post);
                } else {
                    let stamped = SsufidPost { created_at: created_at, updated_at: Some(now), ..post };
                    post_map_insert(&mut map, id, stamped);
                }
            },
        }
    }
    proof {
        assert(sn.take(sn.len() as int) == sn);
    }
    post_map_into_values(map)
}

/// Merges freshly crawled posts into stored ones, marking replaced posts as updated at
/// the current instant (see `merged_posts`).
pub fn merge_entries(old_entries: Vec<SsufidPost>, new_entries: Vec<SsufidPost>) -> (r: Vec<SsufidPost>)
    ensures
        exists|now: Timestamp| merged_posts(old_entries@, new_entries@, now, r@),
{
    let now = crate::datetime::now_utc();
    merge_entries_at(old_entries, new_entries, now)
}

/// Merges freshly crawled events into stored ones (see `merged_events`).
pub fn merge_calendar_entries(old_entries: Vec<SsufidCalendar>, new_entries: Vec<SsufidCalendar>) -> (r: Vec<SsufidCalendar>)
    ensures
        merged_events(old_entries@, new_entries@, r@),
{
    let ghost old_seq = old_entries@;
    let mut map = event_map_new();
    for item in it: old_entries
        invariant
            it.seq() == old_seq,
            event_entries(map) == collect_events(it.seq().take(it.index() as int)),
    {
        let ghost before = it.seq().take(it.index() as int);
        let id = item.id.clone();
        event_map_insert(&mut map, id, item);
        proof {
            assert(it.seq().take(it.index() + 1).drop_last() == before);
        }
    }
    proof {
        assert(old_seq.take(old_seq.len() as int) == old_seq);
        lemma_collect_events_unique(old_seq);
    }
    let ghost collected = event_entries(map);
    event_map_sort(&mut map);
    let ghost so = event_entries(map);
    proof {
        lemma_sort_keeps_unique(collected, so, |a: (Seq<char>, SsufidCalendar), b: (Seq<char>, SsufidCalendar)| event_le(a.1, b.1));
    }
    let mut news = new_entries;
    sort_events(&mut news);
    let ghost sn = news@;
    for item in it: news
        invariant
            it.seq() == sn,
            event_entries(map) == merge_event_fold(so, it.seq().take(it.index() as int)),
            unique_keys(event_entries(map)),
    {
        let ghost before = it.seq().take(it.index() as int);
        let ghost e = event_entries(map);
        let id = item.id.clone();
        let unchanged = match event_map_get(&map, id.as_str()) {
            None => false,
            Some(stored) => stored.contents_eq(&item),
        };
        proof {
            lemma_key_pos(e, item.id@);
            lemma_merge_event_step_unique(e, item);
            assert(it.seq().take(it.index() + 1).drop_last() == before);
            assert(it.seq().take(it.index() + 1).last() == item);
        }
        if !unchanged {
            event_map_insert(&mut map, id, item);
        }
    }
    proof {
        assert(sn.take(sn.len() as int) == sn);
    }
    event_map_into_values(map)
}

/// The identifier of a post.
pub open spec fn post_id(p: SsufidPost) -> Seq<char> {
    p.id@
}

/// The identifier of an event.
pub open spec fn event_id(c: SsufidCalendar) -> Seq<char> {
    c.id@
}

/// The post stored under `p`'s identifier once `p` is merged over `prev`, the post stored
/// there before, if any.
pub open spec fn post_step_value(prev: Option<SsufidPost>, p: SsufidPost, now: Timestamp) -> SsufidPost {
    match prev {
        None => p,
        Some(o) => if o.spec_contents_eq(p) {
            o
        } else if p.updated_at is Some {
            p
        } else {
            restamped(p, o.created_at, now)
        },
    }
}

/// The event stored under `c`'s identifier once `c` is merged over `prev`.
pub open spec fn event_step_value(prev: Option<SsufidCalendar>, c: SsufidCalendar) -> SsufidCalendar {
    match prev {
        Some(o) => if o.spec_contents_eq(c) { o } else { c },
        None => c,
    }
}

proof fn lemma_post_step_lookup(e: Seq<(Seq<char>, SsufidPost)>, p: SsufidPost, now: Timestamp, k: Seq<char>)
    ensures
        lookup(merge_post_step(e, p, now), k) == (if k == p.id@ {
            Some(post_step_value(lookup(e, p.id@), p, now))
        } else {
            lookup(e, k)
        }),
        keyed_by(e, |q: SsufidPost| post_id(q)) ==> keyed_by(merge_post_step(e, p, now), |q: SsufidPost| post_id(q)),
{
    lemma_key_pos(e, p.id@);
    let i = key_pos(e, p.id@);
    let id_of = |q: SsufidPost| post_id(q);
    if i < 0 {
        lemma_lookup_insert(e, p.id@, p, k);
        if keyed_by(e, id_of) {
            lemma_insert_keyed(e, p, id_of);
        }
    } else if e[i].1.spec_contents_eq(p) {
    } else if p.updated_at is Some {
        lemma_lookup_insert(e, p.id@, p, k);
        if keyed_by(e, id_of) {
            lemma_insert_keyed(e, p, id_of);
        }
    } else {
        let q = restamped(p, e[i].1.created_at, now);
        lemma_lookup_insert(e, p.id@, q, k);
        if keyed_by(e, id_of) {
            assert(id_of(q) == p.id@);
            lemma_insert_keyed(e, q, id_of);
        }
    }
}

proof fn lemma_post_fold(e: Seq<(Seq<char>, SsufidPost)>, news: Seq<SsufidPost>, now: Timestamp, k: Seq<char>)
    ensures
        absent(news, |q: SsufidPost| post_id(q), k) ==> lookup(merge_post_fold(e, news, now), k) == lookup(e, k),
        forall|j: int| only_at(news, |q: SsufidPost| post_id(q), k, j) ==> lookup(merge_post_fold(e, news, now), k)
            == Some(post_step_value(lookup(e, k), news[j], now)),
        (exists|j: int| 0 <= j < news.len() && news[j].id@ == k) ==> lookup(merge_post_fold(e, news, now), k) is Some,
        unique_keys(e) ==> unique_keys(merge_post_fold(e, news, now)),
        keyed_by(e, |q: SsufidPost| post_id(q)) ==> keyed_by(merge_post_fold(e, news, now), |q: SsufidPost| post_id(q)),
    decreases news.len(),
{
    let id_of = |q: SsufidPost| post_id(q);
    if news.len() > 0 {
        let pre = news.drop_last();
        let last = news.last();
        lemma_post_fold(e, pre, now, k);
        let f = merge_post_fold(e, pre, now);
        lemma_post_step_lookup(f, last, now, k);
        if unique_keys(e) {
            lemma_merge_post_step_unique(f, last, now);
        }
        if absent(news, id_of, k) {
            assert forall|m: int| 0 <= m < pre.len() implies id_of(#[trigger] pre[m]) != k by {
                assert(pre[m] == news[m]);
            }
            assert(id_of(news[news.len() - 1]) != k);
        }
        assert forall|j: int| only_at(news, id_of, k, j) implies lookup(merge_post_fold(e, news, now), k)
            == Some(post_step_value(lookup(e, k), news[j], now)) by {
            if j == news.len() - 1 {
                assert forall|m: int| 0 <= m < pre.len() implies id_of(#[trigger] pre[m]) != k by {
                    assert(pre[m] == news[m]);
                }
            } else {
                assert(only_at(pre, id_of, k, j)) by {
                    assert forall|m: int| 0 <= m < pre.len() && m != j implies id_of(#[trigger] pre[m]) != k by {
                        assert(pre[m] == news[m]);
                    }
                }
                assert(id_of(news[news.len() - 1]) != k);
            }
        }
        if exists|j: int| 0 <= j < news.len() && news[j].id@ == k {
            let j = choose|j: int| 0 <= j < news.len() && news[j].id@ == k;
            if j < pre.len() {
                assert(pre[j] == news[j]);
            }
        }
    }
}

proof fn lemma_collect_posts_lookup(s: Seq<SsufidPost>, k: Seq<char>)
    ensures
        absent(s, |q: SsufidPost| post_id(q), k) ==> lookup(collect_posts(s), k) is None,
        forall|j: int| only_at(s, |q: SsufidPost| post_id(q), k, j) ==> lookup(collect_posts(s), k) == Some(s[j]),
        (exists|j: int| 0 <= j < s.len() && s[j].id@ == k) ==> lookup(collect_posts(s), k) is Some,
        keyed_by(collect_posts(s), |q: SsufidPost| post_id(q)),
    decreases s.len(),
{
    let id_of = |q: SsufidPost| post_id(q);
    if s.len() > 0 {
        let pre = s.drop_last();
        let last = s.last();
        lemma_collect_posts_lookup(pre, k);
        lemma_lookup_insert(collect_posts(pre), last.id@, last, k);
        lemma_insert_keyed(collect_posts(pre), last, id_of);
        if absent(s, id_of, k) {
            assert forall|m: int| 0 <= m < pre.len() implies id_of(#[trigger] pre[m]) != k by {
                assert(pre[m] == s[m]);
            }
            assert(id_of(s[s.len() - 1]) != k);
        }
        assert forall|j: int| only_at(s, id_of, k, j) implies lookup(collect_posts(s), k) == Some(s[j]) by {
            if j < s.len() - 1 {
                assert(only_at(pre, id_of, k, j)) by {
                    assert forall|m: int| 0 <= m < pre.len() && m != j implies id_of(#[trigger] pre[m]) != k by {
                        assert(pre[m] == s[m]);
                    }
                }
                assert(id_of(s[s.len() - 1]) != k);
            }
        }
        if exists|j: int| 0 <= j < s.len() && s[j].id@ == k {
            let j = choose|j: int| 0 <= j < s.len() && s[j].id@ == k;
            if j < pre.len() {
                assert(pre[j] == s[j]);
            }
        }
    } else {
        assert(collect_posts(s) =~= Seq::<(Seq<char>, SsufidPost)>::empty());
    }
}

/// The post stored under `k` after the merge, from the stored and the new posts.
proof fn lemma_merged_post_lookup(
    old: Seq<SsufidPost>,
    new: Seq<SsufidPost>,
    now: Timestamp,
    so: Seq<(Seq<char>, SsufidPost)>,
    sn: Seq<SsufidPost>,
    k: Seq<char>,
)
    requires
        is_stable_sort_of(collect_posts(old), so, |a: (Seq<char>, SsufidPost), b: (Seq<char>, SsufidPost)| post_le(a.1, b.1)),
        is_stable_sort_of(new, sn, |a: SsufidPost, b: SsufidPost| post_le(a, b)),
    ensures
        unique_keys(merge_post_fold(so, sn, now)),
        keyed_by(merge_post_fold(so, sn, now), |q: SsufidPost| post_id(q)),
        absent(new, |q: SsufidPost| post_id(q), k) ==> lookup(merge_post_fold(so, sn, now), k) == lookup(collect_posts(old), k),
        forall|j: int| only_at(new, |q: SsufidPost| post_id(q), k, j) ==> lookup(merge_post_fold(so, sn, now), k)
            == Some(post_step_value(lookup(collect_posts(old), k), new[j], now)),
        (exists|j: int| 0 <= j < new.len() && new[j].id@ == k) ==> lookup(merge_post_fold(so, sn, now), k) is Some,
{
    let id_of = |q: SsufidPost| post_id(q);
    let le = |a: (Seq<char>, SsufidPost), b: (Seq<char>, SsufidPost)| post_le(a.1, b.1);
    lemma_collect_posts_unique(old);
    lemma_collect_posts_lookup(old, k);
    lemma_lookup_sorted(collect_posts(old), so, le, id_of, k);
    lemma_sorted_only_at(new, sn, |a: SsufidPost, b: SsufidPost| post_le(a, b), id_of, k);
    lemma_post_fold(so, sn, now, k);
    assert forall|j: int| only_at(new, id_of, k, j) implies lookup(merge_post_fold(so, sn, now), k)
        == Some(post_step_value(lookup(collect_posts(old), k), new[j], now)) by {
        let m = choose|m: int| only_at(sn, id_of, k, m) && sn[m] == new[j];
    }
    if exists|j: int| 0 <= j < new.len() && new[j].id@ == k {
        let j = choose|j: int| 0 <= j < new.len() && new[j].id@ == k;
        assert(id_of(new[j]) == k);
    }
}

/// The merged posts hold each identifier once, and an identifier is among them exactly
/// when it is among the stored or the new posts.
pub proof fn law_merge_posts_identifiers(
    old: Seq<SsufidPost>,
    new: Seq<SsufidPost>,
    now: Timestamp,
    result: Seq<SsufidPost>,
    k: Seq<char>,
)
    requires
        merged_posts(old, new, now, result),
    ensures
        forall|i: int, j: int| 0 <= i < j < result.len() ==> result[i].id@ != result[j].id@,
        (exists|i: int| 0 <= i < result.len() && result[i].id@ == k) <==> ((exists|i: int|
            0 <= i < old.len() && old[i].id@ == k) || (exists|j: int| 0 <= j < new.len() && new[j].id@ == k)),
{
    let (so, sn) = choose|so: Seq<(Seq<char>, SsufidPost)>, sn: Seq<SsufidPost>|
        {
            &&& is_stable_sort_of(collect_posts(old), so, |a: (Seq<char>, SsufidPost), b: (Seq<char>, SsufidPost)| post_le(a.1, b.1))
            &&& is_stable_sort_of(new, sn, |a: SsufidPost, b: SsufidPost| post_le(a, b))
            &&& result == entry_values(merge_post_fold(so, sn, now))
        };
    let id_of = |q: SsufidPost| post_id(q);
    let f = merge_post_fold(so, sn, now);
    lemma_merged_post_lookup(old, new, now, so, sn, k);
    lemma_collect_posts_lookup(old, k);
    lemma_collect_posts_unique(old);
    lemma_lookup_at(f, k);
    lemma_lookup_at(collect_posts(old), k);
    assert forall|i: int| 0 <= i < result.len() implies #[trigger] result[i].id@ == f[i].0 by {
        assert(result[i] == f[i].1);
        assert(f[i].0 == id_of(f[i].1));
    }
    if exists|i: int| 0 <= i < result.len() && result[i].id@ == k {
        let i = choose|i: int| 0 <= i < result.len() && result[i].id@ == k;
        assert(f[i].0 == k);
        if !(exists|j: int| 0 <= j < new.len() && new[j].id@ == k) {
            assert(absent(new, id_of, k));
            let c = collect_posts(old);
            let a = choose|a: int| 0 <= a < c.len() && c[a].0 == k;
            assert(c[a].0 == id_of(c[a].1));
        }
    }
    if exists|i: int| 0 <= i < old.len() && old[i].id@ == k {
        if !(exists|j: int| 0 <= j < new.len() && new[j].id@ == k) {
            assert(absent(new, id_of, k));
        }
        let i = choose|i: int| 0 <= i < f.len() && f[i].0 == k;
        assert(result[i].id@ == k);
    }
    if exists|j: int| 0 <= j < new.len() && new[j].id@ == k {
        let i = choose|i: int| 0 <= i < f.len() && f[i].0 == k;
        assert(result[i].id@ == k);
    }
}

proof fn lemma_found_in_values<V>(e: Seq<(Seq<char>, V)>, k: Seq<char>, x: V)
    requires
        lookup(e, k) == Some(x),
    ensures
        exists|i: int| 0 <= i < entry_values(e).len() && entry_values(e)[i] == x,
{
    lemma_key_pos(e, k);
    let i = key_pos(e, k);
    assert(entry_values(e)[i] == x);
}

/// A new post `new[j]` whose identifier no stored post and no other new post has is among
/// the merged posts as it came.
pub proof fn law_merge_posts_adds_fresh(
    old: Seq<SsufidPost>,
    new: Seq<SsufidPost>,
    now: Timestamp,
    result: Seq<SsufidPost>,
    k: Seq<char>,
    j: int,
)
    requires
        merged_posts(old, new, now, result),
        only_at(new, |q: SsufidPost| post_id(q), k, j),
        absent(old, |q: SsufidPost| post_id(q), k),
    ensures
        exists|i: int| 0 <= i < result.len() && result[i] == new[j],
{
    let (so, sn) = choose|so: Seq<(Seq<char>, SsufidPost)>, sn: Seq<SsufidPost>|
        {
            &&& is_stable_sort_of(collect_posts(old), so, |a: (Seq<char>, SsufidPost), b: (Seq<char>, SsufidPost)| post_le(a.1, b.1))
            &&& is_stable_sort_of(new, sn, |a: SsufidPost, b: SsufidPost| post_le(a, b))
            &&& result == entry_values(merge_post_fold(so, sn, now))
        };
    lemma_merged_post_lookup(old, new, now, so, sn, k);
    lemma_collect_posts_lookup(old, k);
    lemma_found_in_values(merge_post_fold(so, sn, now), k, new[j]);
}

/// For an identifier held by exactly one stored post `old[a]` and one new post `new[j]`,
/// the merged posts hold: `old[a]` when the two have the same contents; otherwise
/// `new[j]` when it carries an update instant; otherwise `new[j]` with `old[a]`'s
/// creation instant, marked as updated at `now`.
pub proof fn law_merge_posts_outcome(
    old: Seq<SsufidPost>,
    new: Seq<SsufidPost>,
    now: Timestamp,
    result: Seq<SsufidPost>,
    k: Seq<char>,
    a: int,
    j: int,
)
    requires
        merged_posts(old, new, now, result),
        only_at(old, |q: SsufidPost| post_id(q), k, a),
        only_at(new, |q: SsufidPost| post_id(q), k, j),
    ensures
        old[a].spec_contents_eq(new[j]) ==> exists|i: int| 0 <= i < result.len() && result[i] == old[a],
        !old[a].spec_contents_eq(new[j]) && new[j].updated_at is Some ==> exists|i: int| 0 <= i < result.len() && result[i] == new[j],
        !old[a].spec_contents_eq(new[j]) && new[j].updated_at is None ==> exists|i: int| 0 <= i < result.len()
            && result[i] == restamped(new[j], old[a].created_at, now),
{
    let (so, sn) = choose|so: Seq<(Seq<char>, SsufidPost)>, sn: Seq<SsufidPost>|
        {
            &&& is_stable_sort_of(collect_posts(old), so, |a: (Seq<char>, SsufidPost), b: (Seq<char>, SsufidPost)| post_le(a.1, b.1))
            &&& is_stable_sort_of(new, sn, |a: SsufidPost, b: SsufidPost| post_le(a, b))
            &&& result == entry_values(merge_post_fold(so, sn, now))
        };
    lemma_merged_post_lookup(old, new, now, so, sn, k);
    lemma_collect_posts_lookup(old, k);
    lemma_found_in_values(merge_post_fold(so, sn, now), k, post_step_value(Some(old[a]), new[j], now));
}

/// For an identifier held by exactly one stored post `old[a]` and one new post `new[j]`
/// whose trimmed contents differ, the merged posts hold a post with `new[j]`'s
/// identifier, title and content: `new[j]` itself when it carries an update instant, and
/// otherwise `new[j]` with `old[a]`'s creation instant, marked as updated at `now`.
pub proof fn law_merge_posts_takes_changed_content(
    old: Seq<SsufidPost>,
    new: Seq<SsufidPost>,
    now: Timestamp,
    result: Seq<SsufidPost>,
    k: Seq<char>,
    a: int,
    j: int,
)
    requires
        merged_posts(old, new, now, result),
        only_at(old, |q: SsufidPost| post_id(q), k, a),
        only_at(new, |q: SsufidPost| post_id(q), k, j),
        trim(old[a].content@) != trim(new[j].content@),
    ensures
        exists|i: int| 0 <= i < result.len() && result[i].id == new[j].id && result[i].title == new[j].title
            && result[i].content == new[j].content && result[i].category == new[j].category
            && (new[j].updated_at is Some ==> result[i] == new[j])
            && (new[j].updated_at is None ==> result[i].updated_at == Some(now) && result[i].created_at == old[a].created_at),
{
    law_merge_posts_outcome(old, new, now, result, k, a, j);
    crate::post::law_post_contents_eq_fields(old[a], new[j]);
}

/// A stored post that no new post shares an identifier with stays as it was.
pub proof fn law_merge_posts_keeps_untouched(
    old: Seq<SsufidPost>,
    new: Seq<SsufidPost>,
    now: Timestamp,
    result: Seq<SsufidPost>,
    k: Seq<char>,
    a: int,
)
    requires
        merged_posts(old, new, now, result),
        only_at(old, |q: SsufidPost| post_id(q), k, a),
        absent(new, |q: SsufidPost| post_id(q), k),
    ensures
        exists|i: int| 0 <= i < result.len() && result[i] == old[a],
{
    let (so, sn) = choose|so: Seq<(Seq<char>, SsufidPost)>, sn: Seq<SsufidPost>|
        {
            &&& is_stable_sort_of(collect_posts(old), so, |a: (Seq<char>, SsufidPost), b: (Seq<char>, SsufidPost)| post_le(a.1, b.1))
            &&& is_stable_sort_of(new, sn, |a: SsufidPost, b: SsufidPost| post_le(a, b))
            &&& result == entry_values(merge_post_fold(so, sn, now))
        };
    lemma_merged_post_lookup(old, new, now, so, sn, k);
    lemma_collect_posts_lookup(old, k);
    lemma_found_in_values(merge_post_fold(so, sn, now), k, old[a]);
}

proof fn lemma_event_step_lookup(e: Seq<(Seq<char>, SsufidCalendar)>, c: SsufidCalendar, k: Seq<char>)
    ensures
        lookup(merge_event_step(e, c), k) == (if k == c.id@ {
            Some(event_step_value(lookup(e, c.id@), c))
        } else {
            lookup(e, k)
        }),
        keyed_by(e, |q: SsufidCalendar| event_id(q)) ==> keyed_by(merge_event_step(e, c), |q: SsufidCalendar| event_id(q)),
{
    lemma_key_pos(e, c.id@);
    let i = key_pos(e, c.id@);
    if !(i >= 0 && e[i].1.spec_contents_eq(c)) {
        lemma_lookup_insert(e, c.id@, c, k);
        if keyed_by(e, |q: SsufidCalendar| event_id(q)) {
            lemma_insert_keyed(e, c, |q: SsufidCalendar| event_id(q));
        }
    }
}

proof fn lemma_event_fold(e: Seq<(Seq<char>, SsufidCalendar)>, news: Seq<SsufidCalendar>, k: Seq<char>)
    ensures
        absent(news, |q: SsufidCalendar| event_id(q), k) ==> lookup(merge_event_fold(e, news), k) == lookup(e, k),
        forall|j: int| only_at(news, |q: SsufidCalendar| event_id(q), k, j) ==> lookup(merge_event_fold(e, news), k)
            == Some(event_step_value(lookup(e, k), news[j])),
        (exists|j: int| 0 <= j < news.len() && news[j].id@ == k) ==> lookup(merge_event_fold(e, news), k) is Some,
        unique_keys(e) ==> unique_keys(merge_event_fold(e, news)),
        keyed_by(e, |q: SsufidCalendar| event_id(q)) ==> keyed_by(merge_event_fold(e, news), |q: SsufidCalendar| event_id(q)),
    decreases news.len(),
{
    let id_of = |q: SsufidCalendar| event_id(q);
    if news.len() > 0 {
        let pre = news.drop_last();
        let last = news.last();
        lemma_event_fold(e, pre, k);
        let f = merge_event_fold(e, pre);
        lemma_event_step_lookup(f, last, k);
        if unique_keys(e) {
            lemma_merge_event_step_unique(f, last);
        }
        if absent(news, id_of, k) {
            assert forall|m: int| 0 <= m < pre.len() implies id_of(#[trigger] pre[m]) != k by {
                assert(pre[m] == news[m]);
            }
            assert(id_of(news[news.len() - 1]) != k);
        }
        assert forall|j: int| only_at(news, id_of, k, j) implies lookup(merge_event_fold(e, news), k)
            == Some(event_step_value(lookup(e, k), news[j])) by {
            if j == news.len() - 1 {
                assert forall|m: int| 0 <= m < pre.len() implies id_of(#[trigger] pre[m]) != k by {
                    assert(pre[m] == news[m]);
                }
            } else {
                assert(only_at(pre, id_of, k, j)) by {
                    assert forall|m: int| 0 <= m < pre.len() && m != j implies id_of(#[trigger] pre[m]) != k by {
                        assert(pre[m] == news[m]);
                    }
                }
                assert(id_of(news[news.len() - 1]) != k);
            }
        }
        if exists|j: int| 0 <= j < news.len() && news[j].id@ == k {
            let j = choose|j: int| 0 <= j < news.len() && news[j].id@ == k;
            if j < pre.len() {
                assert(pre[j] == news[j]);
            }
        }
    }
}

proof fn lemma_collect_events_lookup(s: Seq<SsufidCalendar>, k: Seq<char>)
    ensures
        absent(s, |q: SsufidCalendar| event_id(q), k) ==> lookup(collect_events(s), k) is None,
        forall|j: int| only_at(s, |q: SsufidCalendar| event_id(q), k, j) ==> lookup(collect_events(s), k) == Some(s[j]),
        (exists|j: int| 0 <= j < s.len() && s[j].id@ == k) ==> lookup(collect_events(s), k) is Some,
        keyed_by(collect_events(s), |q: SsufidCalendar| event_id(q)),
    decreases s.len(),
{
    let id_of = |q: SsufidCalendar| event_id(q);
    if s.len() > 0 {
        let pre = s.drop_last();
        let last = s.last();
        lemma_collect_events_lookup(pre, k);
        lemma_lookup_insert(collect_events(pre), last.id@, last, k);
        lemma_insert_keyed(collect_events(pre), last, id_of);
        if absent(s, id_of, k) {
            assert forall|m: int| 0 <= m < pre.len() implies id_of(#[trigger] pre[m]) != k by {
                assert(pre[m] == s[m]);
            }
            assert(id_of(s[s.len() - 1]) != k);
        }
        assert forall|j: int| only_at(s, id_of, k, j) implies lookup(collect_events(s), k) == Some(s[j]) by {
            if j < s.len() - 1 {
                assert(only_at(pre, id_of, k, j)) by {
                    assert forall|m: int| 0 <= m < pre.len() && m != j implies id_of(#[trigger] pre[m]) != k by {
                        assert(pre[m] == s[m]);
                    }
                }
                assert(id_of(s[s.len() - 1]) != k);
            }
        }
        if exists|j: int| 0 <= j < s.len() && s[j].id@ == k {
            let j = choose|j: int| 0 <= j < s.len() && s[j].id@ == k;
            if j < pre.len() {
                assert(pre[j] == s[j]);
            }
        }
    } else {
        assert(collect_events(s) =~= Seq::<(Seq<char>, SsufidCalendar)>::empty());
    }
}

proof fn lemma_merged_event_lookup(
    old: Seq<SsufidCalendar>,
    new: Seq<SsufidCalendar>,
    so: Seq<(Seq<char>, SsufidCalendar)>,
    sn: Seq<SsufidCalendar>,
    k: Seq<char>,
)
    requires
        is_stable_sort_of(collect_events(old), so, |a: (Seq<char>, SsufidCalendar), b: (Seq<char>, SsufidCalendar)| event_le(a.1, b.1)),
        is_stable_sort_of(new, sn, |a: SsufidCalendar, b: SsufidCalendar| event_le(a, b)),
    ensures
        unique_keys(merge_event_fold(so, sn)),
        keyed_by(merge_event_fold(so, sn), |q: SsufidCalendar| event_id(q)),
        absent(new, |q: SsufidCalendar| event_id(q), k) ==> lookup(merge_event_fold(so, sn), k) == lookup(collect_events(old), k),
        forall|j: int| only_at(new, |q: SsufidCalendar| event_id(q), k, j) ==> lookup(merge_event_fold(so, sn), k)
            == Some(event_step_value(lookup(collect_events(old), k), new[j])),
        (exists|j: int| 0 <= j < new.len() && new[j].id@ == k) ==> lookup(merge_event_fold(so, sn), k) is Some,
{
    let id_of = |q: SsufidCalendar| event_id(q);
    let le = |a: (Seq<char>, SsufidCalendar), b: (Seq<char>, SsufidCalendar)| event_le(a.1, b.1);
    lemma_collect_events_unique(old);
    lemma_collect_events_lookup(old, k);
    lemma_lookup_sorted(collect_events(old), so, le, id_of, k);
    lemma_sorted_only_at(new, sn, |a: SsufidCalendar, b: SsufidCalendar| event_le(a, b), id_of, k);
    lemma_event_fold(so, sn, k);
    assert forall|j: int| only_at(new, id_of, k, j) implies lookup(merge_event_fold(so, sn), k)
        == Some(event_step_value(lookup(collect_events(old), k), new[j])) by {
        let m = choose|m: int| only_at(sn, id_of, k, m) && sn[m] == new[j];
    }
    if exists|j: int| 0 <= j < new.len() && new[j].id@ == k {
        let j = choose|j: int| 0 <= j < new.len() && new[j].id@ == k;
        assert(id_of(new[j]) == k);
    }
}

/// The merged events hold each identifier once, and an identifier is among them exactly
/// when it is among the stored or the new events.
pub proof fn law_merge_events_identifiers(
    old: Seq<SsufidCalendar>,
    new: Seq<SsufidCalendar>,
    result: Seq<SsufidCalendar>,
    k: Seq<char>,
)
    requires
        merged_events(old, new, result),
    ensures
        forall|i: int, j: int| 0 <= i < j < result.len() ==> result[i].id@ != result[j].id@,
        (exists|i: int| 0 <= i < result.len() && result[i].id@ == k) <==> ((exists|i: int|
            0 <= i < old.len() && old[i].id@ == k) || (exists|j: int| 0 <= j < new.len() && new[j].id@ == k)),
{
    let (so, sn) = choose|so: Seq<(Seq<char>, SsufidCalendar)>, sn: Seq<SsufidCalendar>|
        {
            &&& is_stable_sort_of(collect_events(old), so, |a: (Seq<char>, SsufidCalendar), b: (Seq<char>, SsufidCalendar)| event_le(a.1, b.1))
            &&& is_stable_sort_of(new, sn, |a: SsufidCalendar, b: SsufidCalendar| event_le(a, b))
            &&& result == entry_values(merge_event_fold(so, sn))
        };
    let id_of = |q: SsufidCalendar| event_id(q);
    let f = merge_event_fold(so, sn);
    lemma_merged_event_lookup(old, new, so, sn, k);
    lemma_collect_events_lookup(old, k);
    lemma_collect_events_unique(old);
    lemma_lookup_at(f, k);
    lemma_lookup_at(collect_events(old), k);
    assert forall|i: int| 0 <= i < result.len() implies #[trigger] result[i].id@ == f[i].0 by {
        assert(result[i] == f[i].1);
        assert(f[i].0 == id_of(f[i].1));
    }
    if exists|i: int| 0 <= i < result.len() && result[i].id@ == k {
        let i = choose|i: int| 0 <= i < result.len() && result[i].id@ == k;
        assert(f[i].0 == k);
        if !(exists|j: int| 0 <= j < new.len() && new[j].id@ == k) {
            assert(absent(new, id_of, k));
            let c = collect_events(old);
            let a = choose|a: int| 0 <= a < c.len() && c[a].0 == k;
            assert(c[a].0 == id_of(c[a].1));
        }
    }
    if exists|i: int| 0 <= i < old.len() && old[i].id@ == k {
        if !(exists|j: int| 0 <= j < new.len() && new[j].id@ == k) {
            assert(absent(new, id_of, k));
        }
        let i = choose|i: int| 0 <= i < f.len() && f[i].0 == k;
        assert(result[i].id@ == k);
    }
    if exists|j: int| 0 <= j < new.len() && new[j].id@ == k {
        let i = choose|i: int| 0 <= i < f.len() && f[i].0 == k;
        assert(result[i].id@ == k);
    }
}

/// For an identifier held by exactly one stored event `old[a]` and one new event
/// `new[j]` whose trimmed titles differ, the merged events hold `new[j]`.
pub proof fn law_merge_events_takes_renamed(
    old: Seq<SsufidCalendar>,
    new: Seq<SsufidCalendar>,
    result: Seq<SsufidCalendar>,
    k: Seq<char>,
    a: int,
    j: int,
)
    requires
        merged_events(old, new, result),
        only_at(old, |q: SsufidCalendar| event_id(q), k, a),
        only_at(new, |q: SsufidCalendar| event_id(q), k, j),
        trim(old[a].title@) != trim(new[j].title@),
    ensures
        exists|i: int| 0 <= i < result.len() && result[i] == new[j],
{
    law_merge_events_outcome(old, new, result, k, a, j);
    crate::calendar::law_calendar_contents_eq_fields(old[a], new[j]);
}

/// For an identifier held by at most one stored event and exactly one new event
/// `new[j]`: the merged events hold the stored event when it has the same contents as
/// `new[j]`, and `new[j]` otherwise; a stored event that no new event shares an
/// identifier with stays as it was.
pub proof fn law_merge_events_outcome(
    old: Seq<SsufidCalendar>,
    new: Seq<SsufidCalendar>,
    result: Seq<SsufidCalendar>,
    k: Seq<char>,
    a: int,
    j: int,
)
    requires
        merged_events(old, new, result),
    ensures
        absent(old, |q: SsufidCalendar| event_id(q), k) && only_at(new, |q: SsufidCalendar| event_id(q), k, j)
            ==> exists|i: int| 0 <= i < result.len() && result[i] == new[j],
        only_at(old, |q: SsufidCalendar| event_id(q), k, a) && only_at(new, |q: SsufidCalendar| event_id(q), k, j)
            ==> exists|i: int| 0 <= i < result.len() && result[i] == event_step_value(Some(old[a]), new[j]),
        only_at(old, |q: SsufidCalendar| event_id(q), k, a) && absent(new, |q: SsufidCalendar| event_id(q), k)
            ==> exists|i: int| 0 <= i < result.len() && result[i] == old[a],
{
    let (so, sn) = choose|so: Seq<(Seq<char>, SsufidCalendar)>, sn: Seq<SsufidCalendar>|
        {
            &&& is_stable_sort_of(collect_events(old), so, |a: (Seq<char>, SsufidCalendar), b: (Seq<char>, SsufidCalendar)| event_le(a.1, b.1))
            &&& is_stable_sort_of(new, sn, |a: SsufidCalendar, b: SsufidCalendar| event_le(a, b))
            &&& result == entry_values(merge_event_fold(so, sn))
        };
    let id_of = |q: SsufidCalendar| event_id(q);
    let f = merge_event_fold(so, sn);
    lemma_merged_event_lookup(old, new, so, sn, k);
    lemma_collect_events_lookup(old, k);
    if absent(old, id_of, k) && only_at(new, id_of, k, j) {
        lemma_found_in_values(f, k, new[j]);
    }
    if only_at(old, id_of, k, a) && only_at(new, id_of, k, j) {
        lemma_found_in_values(f, k, event_step_value(Some(old[a]), new[j]));
    }
    if only_at(old, id_of, k, a) && absent(new, id_of, k) {
        lemma_found_in_values(f, k, old[a]);
    }
}

} // verus!
