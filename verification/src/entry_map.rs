//! Insertion-ordered maps from identifiers to posts and to events (`indexmap::IndexMap`),
//! modelled by their entries in order.

use vstd::prelude::*;
use indexmap::IndexMap;
use crate::post::SsufidPost;
use crate::calendar::SsufidCalendar;
use crate::order::{compare_posts, compare_events, is_stable_sort_of, post_le, event_le};

verus! {

#[verifier::external_type_specification]
#[verifier::external_body]
#[verifier::reject_recursive_types(K)]
#[verifier::reject_recursive_types(V)]
#[verifier::reject_recursive_types(S)]
pub struct ExIndexMap<K, V, S>(IndexMap<K, V, S>);

/// The entries of a map from identifiers to posts, in the map's order.
pub uninterp spec fn post_entries(m: IndexMap<String, SsufidPost>) -> Seq<(Seq<char>, SsufidPost)>;

/// The entries of a map from identifiers to events, in the map's order.
pub uninterp spec fn event_entries(m: IndexMap<String, SsufidCalendar>) -> Seq<(Seq<char>, SsufidCalendar)>;

/// No key occurs twice among the entries.
pub open spec fn unique_keys<V>(e: Seq<(Seq<char>, V)>) -> bool {
    forall|i: int, j: int| 0 <= i < j < e.len() ==> e[i].0 != e[j].0
}

/// The position of the last entry with key `k`, or -1 when there is none.
pub open spec fn key_pos<V>(e: Seq<(Seq<char>, V)>, k: Seq<char>) -> int
    decreases e.len(),
{
    if e.len() == 0 {
        -1
    } else if e.last().0 == k {
        e.len() - 1
    } else {
        key_pos(e.drop_last(), k)
    }
}

/// The entries after inserting `v` under `k`: an entry with key `k` keeps its place and
/// takes the value `v`; otherwise `(k, v)` is appended.
pub open spec fn entries_insert<V>(e: Seq<(Seq<char>, V)>, k: Seq<char>, v: V) -> Seq<(Seq<char>, V)> {
    let i = key_pos(e, k);
    if i >= 0 {
        e.update(i, (e[i].0, v))
    } else {
        e.push((k, v))
    }
}

/// The values of the entries, in order.
pub open spec fn entry_values<V>(e: Seq<(Seq<char>, V)>) -> Seq<V> {
    e.map_values(|x: (Seq<char>, V)| x.1)
}

/// The keys of the entries, in order.
pub open spec fn entry_keys<V>(e: Seq<(Seq<char>, V)>) -> Seq<Seq<char>> {
    e.map_values(|x: (Seq<char>, V)| x.0)
}

/// `key_pos` finds an entry with the key exactly when one exists.
pub proof fn lemma_key_pos<V>(e: Seq<(Seq<char>, V)>, k: Seq<char>)
    ensures
        -1 <= key_pos(e, k) < e.len(),
        key_pos(e, k) >= 0 ==> e[key_pos(e, k)].0 == k,
        key_pos(e, k) < 0 <==> forall|j: int| 0 <= j < e.len() ==> e[j].0 != k,
        forall|j: int| key_pos(e, k) < j < e.len() ==> e[j].0 != k,
    decreases e.len(),
{
    if e.len() > 0 && e.last().0 != k {
        lemma_key_pos(e.drop_last(), k);
        assert forall|j: int| 0 <= j < e.len() - 1 implies e.drop_last()[j] == e[j] by {}
    }
}

/// Inserting keeps the keys unique, and adds `k` to the keys.
pub proof fn lemma_insert_unique<V>(e: Seq<(Seq<char>, V)>, k: Seq<char>, v: V)
    requires
        unique_keys(e),
    ensures
        unique_keys(entries_insert(e, k, v)),
        entry_keys(entries_insert(e, k, v)) == (if key_pos(e, k) >= 0 { entry_keys(e) } else { entry_keys(e).push(k) }),
{
    lemma_key_pos(e, k);
    let r = entries_insert(e, k, v);
    assert(entry_keys(r) =~= (if key_pos(e, k) >= 0 { entry_keys(e) } else { entry_keys(e).push(k) }));
}

/// A stable sort keeps the keys unique.
pub proof fn lemma_sort_keeps_unique<V>(before: Seq<(Seq<char>, V)>, after: Seq<(Seq<char>, V)>, le: spec_fn((Seq<char>, V), (Seq<char>, V)) -> bool)
    requires
        unique_keys(before),
        is_stable_sort_of(before, after, le),
    ensures
        unique_keys(after),
{
    let p = choose|p: Seq<int>| crate::order::stable_sort_witness(before, after, le, p);
    assert forall|i: int, j: int| 0 <= i < j < after.len() implies after[i].0 != after[j].0 by {
        assert(after[i] == before[p[i]]);
        assert(after[j] == before[p[j]]);
        if p[i] < p[j] {
        } else {
            assert(p[i] != p[j]);
        }
    }
}

/// An empty map (`IndexMap::new`).
#[verifier::external_body]
pub(crate) fn post_map_new() -> (m: IndexMap<String, SsufidPost>)
    ensures
        post_entries(m) == Seq::<(Seq<char>, SsufidPost)>::empty(),
{
    IndexMap::new()
}

/// Inserts `value` under `key` (`IndexMap::insert`): an existing key keeps its place
/// and takes the new value; a new key goes last.
#[verifier::external_body]
pub(crate) fn post_map_insert(m: &mut IndexMap<String, SsufidPost>, key: String, value: SsufidPost)
    ensures
        post_entries(*final(m)) == entries_insert(post_entries(*old(m)), key@, value),
{
    m.insert(key, value);
}

/// The value stored under `key` (`IndexMap::get`).
#[verifier::external_body]
pub(crate) fn post_map_get<'a>(m: &'a IndexMap<String, SsufidPost>, key: &str) -> (r: Option<&'a SsufidPost>)
    requires
        unique_keys(post_entries(*m)),
    ensures
        r is None <==> key_pos(post_entries(*m), key@) < 0,
        r matches Some(v) ==> *v == post_entries(*m)[key_pos(post_entries(*m), key@)].1,
{
    m.get(key)
}

/// Sorts the entries stably by the posts' creation instants (`IndexMap::sort_by`,
/// whose sort is stable).
#[verifier::external_body]
pub(crate) fn post_map_sort(m: &mut IndexMap<String, SsufidPost>)
    ensures
        is_stable_sort_of(
            post_entries(*old(m)),
            post_entries(*final(m)),
            |a: (Seq<char>, SsufidPost), b: (Seq<char>, SsufidPost)| post_le(a.1, b.1),
        ),
{
    m.sort_by(|_ka, a, _kb, b| compare_posts(a, b));
}

/// The values in the map's order (`IndexMap::into_values`).
#[verifier::external_body]
pub(crate) fn post_map_into_values(m: IndexMap<String, SsufidPost>) -> (v: Vec<SsufidPost>)
    ensures
        v@ == entry_values(post_entries(m)),
{
    m.into_values().collect()
}

/// An empty map (`IndexMap::new`).
#[verifier::external_body]
pub(crate) fn event_map_new() -> (m: IndexMap<String, SsufidCalendar>)
    ensures
        event_entries(m) == Seq::<(Seq<char>, SsufidCalendar)>::empty(),
{
    IndexMap::new()
}

/// Inserts `value` under `key` (`IndexMap::insert`): an existing key keeps its place
/// and takes the new value; a new key goes last.
#[verifier::external_body]
pub(crate) fn event_map_insert(m: &mut IndexMap<String, SsufidCalendar>, key: String, value: SsufidCalendar)
    ensures
        event_entries(*final(m)) == entries_insert(event_entries(*old(m)), key@, value),
{
    m.insert(key, value);
}

/// The value stored under `key` (`IndexMap::get`).
#[verifier::external_body]
pub(crate) fn event_map_get<'a>(m: &'a IndexMap<String, SsufidCalendar>, key: &str) -> (r: Option<&'a SsufidCalendar>)
    requires
        unique_keys(event_entries(*m)),
    ensures
        r is None <==> key_pos(event_entries(*m), key@) < 0,
        r matches Some(v) ==> *v == event_entries(*m)[key_pos(event_entries(*m), key@)].1,
{
    m.get(key)
}

/// Sorts the entries stably by the events' order (`IndexMap::sort_by`, whose sort is
/// stable).
#[verifier::external_body]
pub(crate) fn event_map_sort(m: &mut IndexMap<String, SsufidCalendar>)
    ensures
        is_stable_sort_of(
            event_entries(*old(m)),
            event_entries(*final(m)),
            |a: (Seq<char>, SsufidCalendar), b: (Seq<char>, SsufidCalendar)| event_le(a.1, b.1),
        ),
{
    m.sort_by(|_ka, a, _kb, b| compare_events(a, b));
}

/// The values in the map's order (`IndexMap::into_values`).
#[verifier::external_body]
pub(crate) fn event_map_into_values(m: IndexMap<String, SsufidCalendar>) -> (v: Vec<SsufidCalendar>)
    ensures
        v@ == entry_values(event_entries(m)),
{
    m.into_values().collect()
}

/// The value stored under `k`, if any.
pub open spec fn lookup<V>(e: Seq<(Seq<char>, V)>, k: Seq<char>) -> Option<V> {
    let i = key_pos(e, k);
    if i >= 0 {
        Some(e[i].1)
    } else {
        None
    }
}

/// Every entry is keyed by its value's identifier.
pub open spec fn keyed_by<V>(e: Seq<(Seq<char>, V)>, id_of: spec_fn(V) -> Seq<char>) -> bool {
    forall|i: int| 0 <= i < e.len() ==> #[trigger] e[i].0 == id_of(e[i].1)
}

/// `j` is the one position of `s` whose identifier is `k`.
pub open spec fn only_at<T>(s: Seq<T>, id_of: spec_fn(T) -> Seq<char>, k: Seq<char>, j: int) -> bool {
    &&& 0 <= j < s.len()
    &&& id_of(s[j]) == k
    &&& forall|m: int| 0 <= m < s.len() && m != j ==> id_of(#[trigger] s[m]) != k
}

/// No element of `s` has the identifier `k`.
pub open spec fn absent<T>(s: Seq<T>, id_of: spec_fn(T) -> Seq<char>, k: Seq<char>) -> bool {
    forall|m: int| 0 <= m < s.len() ==> id_of(#[trigger] s[m]) != k
}

proof fn lemma_key_pos_same_keys<V>(e: Seq<(Seq<char>, V)>, f: Seq<(Seq<char>, V)>, k: Seq<char>)
    requires
        e.len() == f.len(),
        forall|i: int| 0 <= i < e.len() ==> e[i].0 == f[i].0,
    ensures
        key_pos(e, k) == key_pos(f, k),
{
    lemma_key_pos(e, k);
    lemma_key_pos(f, k);
    let a = key_pos(e, k);
    let b = key_pos(f, k);
    if a >= 0 {
        assert(f[a].0 == k);
        assert(b >= a);
        assert(e[b].0 == k);
    } else if b >= 0 {
        assert(e[b].0 == k);
    }
}

/// What is stored under each key after an insertion.
pub proof fn lemma_lookup_insert<V>(e: Seq<(Seq<char>, V)>, k: Seq<char>, v: V, k2: Seq<char>)
    ensures
        lookup(entries_insert(e, k, v), k2) == (if k2 == k { Some(v) } else { lookup(e, k2) }),
{
    lemma_key_pos(e, k);
    lemma_key_pos(e, k2);
    let r = entries_insert(e, k, v);
    let i = key_pos(e, k);
    if i >= 0 {
        assert(r == e.update(i, (e[i].0, v)));
        lemma_key_pos_same_keys(e, r, k2);
        if k2 == k {
            assert(key_pos(r, k2) == i);
            assert(r[i].1 == v);
            assert(lookup(r, k2) == Some(v));
        } else {
            let a = key_pos(e, k2);
            if a >= 0 {
                assert(a != i);
                assert(r[a] == e[a]);
                assert(lookup(r, k2) == Some(e[a].1));
            } else {
                assert(lookup(r, k2) == None::<V>);
            }
        }
    } else {
        assert(r == e.push((k, v)));
        assert(r.drop_last() =~= e);
        assert(r.last() == (k, v));
        if k2 == k {
            assert(key_pos(r, k2) == r.len() - 1);
            assert(lookup(r, k2) == Some(v));
        } else {
            assert(key_pos(r, k2) == key_pos(r.drop_last(), k2));
            let a = key_pos(e, k2);
            if a >= 0 {
                assert(r[a] == e[a]);
            }
        }
    }
}

/// Keying by identifier survives an insertion of a value under its identifier.
pub proof fn lemma_insert_keyed<V>(e: Seq<(Seq<char>, V)>, v: V, id_of: spec_fn(V) -> Seq<char>)
    requires
        keyed_by(e, id_of),
    ensures
        keyed_by(entries_insert(e, id_of(v), v), id_of),
{
    lemma_key_pos(e, id_of(v));
    let r = entries_insert(e, id_of(v), v);
    assert forall|i: int| 0 <= i < r.len() implies #[trigger] r[i].0 == id_of(r[i].1) by {
        if i < e.len() && i != key_pos(e, id_of(v)) {
            assert(r[i] == e[i]);
        }
    }
}

/// Under unique keys, a value is stored under `k` exactly when some entry has key `k`,
/// and the stored value is that entry's.
pub proof fn lemma_lookup_at<V>(e: Seq<(Seq<char>, V)>, k: Seq<char>)
    requires
        unique_keys(e),
    ensures
        lookup(e, k) is Some <==> exists|i: int| 0 <= i < e.len() && e[i].0 == k,
        forall|i: int| 0 <= i < e.len() && e[i].0 == k ==> lookup(e, k) == Some(e[i].1),
{
    lemma_key_pos(e, k);
    let a = key_pos(e, k);
    assert forall|i: int| 0 <= i < e.len() && e[i].0 == k implies lookup(e, k) == Some(e[i].1) by {
        if a != i {
            if a < i {
            } else {
                assert(e[i].0 != e[a].0);
            }
        }
    }
}

/// A stable sort of entries with unique keys stores the same value under each key, and
/// keeps entries keyed by identifier.
pub proof fn lemma_lookup_sorted<V>(
    before: Seq<(Seq<char>, V)>,
    after: Seq<(Seq<char>, V)>,
    le: spec_fn((Seq<char>, V), (Seq<char>, V)) -> bool,
    id_of: spec_fn(V) -> Seq<char>,
    k: Seq<char>,
)
    requires
        unique_keys(before),
        is_stable_sort_of(before, after, le),
    ensures
        lookup(after, k) == lookup(before, k),
        keyed_by(before, id_of) ==> keyed_by(after, id_of),
{
    let p = choose|p: Seq<int>| crate::order::stable_sort_witness(before, after, le, p);
    lemma_sort_keeps_unique(before, after, le);
    lemma_lookup_at(before, k);
    lemma_lookup_at(after, k);
    if lookup(before, k) is Some {
        let i = choose|i: int| 0 <= i < before.len() && before[i].0 == k;
        let m = choose|m: int| 0 <= m < p.len() && p[m] == i;
        assert(after[m] == before[p[m]]);
    } else {
        assert forall|m: int| 0 <= m < after.len() implies after[m].0 != k by {
            assert(after[m] == before[p[m]]);
        }
    }
    if keyed_by(before, id_of) {
        assert forall|m: int| 0 <= m < after.len() implies #[trigger] after[m].0 == id_of(after[m].1) by {
            assert(after[m] == before[p[m]]);
        }
    }
}

/// A stable sort keeps, for each identifier, the one element that has it, or its absence.
pub proof fn lemma_sorted_only_at<T>(
    before: Seq<T>,
    after: Seq<T>,
    le: spec_fn(T, T) -> bool,
    id_of: spec_fn(T) -> Seq<char>,
    k: Seq<char>,
)
    requires
        is_stable_sort_of(before, after, le),
    ensures
        absent(before, id_of, k) ==> absent(after, id_of, k),
        forall|j: int| only_at(before, id_of, k, j) ==> exists|m: int| only_at(after, id_of, k, m) && after[m] == before[j],
        (exists|j: int| 0 <= j < before.len() && id_of(before[j]) == k) ==> (exists|m: int| 0 <= m < after.len() && id_of(after[m]) == k),
{
    let p = choose|p: Seq<int>| crate::order::stable_sort_witness(before, after, le, p);
    if absent(before, id_of, k) {
        assert forall|m: int| 0 <= m < after.len() implies id_of(#[trigger] after[m]) != k by {
            assert(after[m] == before[p[m]]);
        }
    }
    assert forall|j: int| only_at(before, id_of, k, j) implies exists|m: int| only_at(after, id_of, k, m) && after[m] == before[j] by {
        let m = choose|m: int| 0 <= m < p.len() && p[m] == j;
        assert(after[m] == before[p[m]]);
        assert forall|m2: int| 0 <= m2 < after.len() && m2 != m implies id_of(#[trigger] after[m2]) != k by {
            assert(after[m2] == before[p[m2]]);
            if p[m2] == j {
                if m2 < m {
                    assert(p[m2] != p[m]);
                } else {
                    assert(p[m] != p[m2]);
                }
            }
        }
    }
    if exists|j: int| 0 <= j < before.len() && id_of(before[j]) == k {
        let j = choose|j: int| 0 <= j < before.len() && id_of(before[j]) == k;
        let m = choose|m: int| 0 <= m < p.len() && p[m] == j;
        assert(after[m] == before[p[m]]);
    }
}

} // verus!
