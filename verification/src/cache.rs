//! The result cache: which handle stands for which command, bounded in size
//! and in age, with the least recently used entry leaving first.

use lru_time_cache::LruCache;
use std::time::Duration;
use vstd::prelude::*;

verus! {

/// `lru_time_cache::LruCache`. Contracts see what it holds through
/// `cache_entries` and `cache_capacity`.
#[verifier::external_type_specification]
#[verifier::external_body]
#[verifier::reject_recursive_types(Key)]
#[verifier::reject_recursive_types(Value)]
pub struct ExLruCache<Key, Value>(LruCache<Key, Value>);

/// A cache key as contracts see it: the kind of command and its two texts.
pub type KeyView = (u8, Seq<char>, Seq<char>);

/// One cached entry as contracts see it: the key and the handle.
pub type EntryView = (KeyView, u64);

/// The entries that the cache holds, the least recently used first. Entries
/// that have outlived the time to live stay in this list until the next
/// lookup or insertion sweeps them out.
pub uninterp spec fn cache_entries(cache: LruCache<(u8, String, String), u64>) -> Seq<EntryView>;

/// The number of entries that the cache was made to hold.
pub uninterp spec fn cache_capacity(cache: LruCache<(u8, String, String), u64>) -> nat;

/// Whether some entry has the key.
pub open spec fn has_key(entries: Seq<EntryView>, key: KeyView) -> bool {
    exists|i: int| 0 <= i < entries.len() && (#[trigger] entries[i]).0 == key
}

/// No two entries have the same key.
pub open spec fn distinct_keys(entries: Seq<EntryView>) -> bool {
    forall|i: int, j: int|
        0 <= i < j < entries.len() ==> (#[trigger] entries[i]).0 != (#[trigger] entries[j]).0
}

/// What a lookup of `key` finds in the entries `live` that are left once the
/// expired ones are swept out, and the entries `after` it: an entry found
/// becomes the most recently used.
pub open spec fn lookup_in(
    live: Seq<EntryView>,
    key: KeyView,
    after: Seq<EntryView>,
    found: Option<u64>,
) -> bool {
    match found {
        Some(handle) => exists|i: int|
            0 <= i < live.len() && #[trigger] live[i] == (key, handle) && after == live.remove(
                i,
            ).push((key, handle)),
        None => !has_key(live, key) && after == live,
    }
}

/// The entries that stay when room is made for one more: all of them while
/// there are fewer than `capacity`, else the `capacity - 1` most recently used.
pub open spec fn room_made(live: Seq<EntryView>, capacity: nat) -> Seq<EntryView> {
    if live.len() >= capacity {
        live.skip(live.len() - capacity + 1)
    } else {
        live
    }
}

/// What an insertion of `key` with `handle` does to the entries `live` that
/// are left once the expired ones are swept out: an entry with the key is
/// replaced, and its handle returned; else room is made first. Either way the
/// new entry is the most recently used.
pub open spec fn insert_in(
    live: Seq<EntryView>,
    capacity: nat,
    key: KeyView,
    handle: u64,
    after: Seq<EntryView>,
    replaced: Option<u64>,
) -> bool {
    match replaced {
        Some(previous) => exists|i: int|
            0 <= i < live.len() && #[trigger] live[i] == (key, previous) && after == live.remove(
                i,
            ).push((key, handle)),
        None => !has_key(live, key) && after == room_made(live, capacity).push((key, handle)),
    }
}

/// Every handle among the entries is below `bound`.
pub open spec fn handles_below(entries: Seq<EntryView>, bound: u64) -> bool {
    forall|i: int| 0 <= i < entries.len() ==> (#[trigger] entries[i]).1 < bound
}

/// Sweeping the oldest entries out keeps what holds of all entries, and adds
/// no key.
pub proof fn lemma_swept(entries: Seq<EntryView>, n: int, bound: u64)
    requires
        0 <= n <= entries.len(),
    ensures
        distinct_keys(entries) ==> distinct_keys(entries.skip(n)),
        handles_below(entries, bound) ==> handles_below(entries.skip(n), bound),
        forall|key: KeyView| has_key(entries.skip(n), key) ==> has_key(entries, key),
        entries.skip(n).len() <= entries.len(),
{
    let live = entries.skip(n);
    assert forall|key: KeyView| has_key(live, key) implies has_key(entries, key) by {
        let i = choose|i: int| 0 <= i < live.len() && (#[trigger] live[i]).0 == key;
        assert(entries[i + n].0 == key);
    }
    if distinct_keys(entries) {
        assert forall|i: int, j: int| 0 <= i < j < live.len() implies (#[trigger] live[i]).0 != (
        #[trigger] live[j]).0 by {
            assert(live[i] == entries[i + n]);
            assert(live[j] == entries[j + n]);
        }
    }
    if handles_below(entries, bound) {
        assert forall|i: int| 0 <= i < live.len() implies (#[trigger] live[i]).1 < bound by {
            assert(live[i] == entries[i + n]);
        }
    }
}

/// A lookup keeps what holds of all entries, and an entry found is the only
/// one with its key.
pub proof fn lemma_looked_up(
    live: Seq<EntryView>,
    key: KeyView,
    after: Seq<EntryView>,
    found: Option<u64>,
    bound: u64,
)
    requires
        lookup_in(live, key, after, found),
        distinct_keys(live),
    ensures
        distinct_keys(after),
        after.len() == live.len(),
        handles_below(live, bound) ==> handles_below(after, bound),
        found is Some <==> has_key(live, key),
        found is Some ==> after.len() > 0 && after.last() == (key, found->0),
        found is Some ==> forall|i: int|
            0 <= i < live.len() && (#[trigger] live[i]).0 == key ==> live[i].1 == found->0,
{
    match found {
        Some(handle) => {
            let i = choose|i: int|
                0 <= i < live.len() && #[trigger] live[i] == (key, handle) && after == live.remove(
                    i,
                ).push((key, handle));
            assert(live[i].0 == key);
            let rest = live.remove(i);
            assert forall|a: int, b: int| 0 <= a < b < after.len() implies (#[trigger] after[a]).0
                != (#[trigger] after[b]).0 by {
                let x = if a < i { a } else { a + 1 };
                assert(after[a] == live[x]);
                if b < rest.len() {
                    let y = if b < i { b } else { b + 1 };
                    assert(after[b] == live[y]);
                } else {
                    assert(after[b] == live[i]);
                }
            }
            if handles_below(live, bound) {
                assert forall|a: int| 0 <= a < after.len() implies (#[trigger] after[a]).1
                    < bound by {
                    if a < rest.len() {
                        let x = if a < i { a } else { a + 1 };
                        assert(after[a] == live[x]);
                    } else {
                        assert(after[a] == live[i]);
                    }
                }
            }
            assert forall|j: int| 0 <= j < live.len() && (#[trigger] live[j]).0 == key implies live[j].1 == handle by {
                if j != i {
                    if j < i {
                        assert(live[j].0 != live[i].0);
                    } else {
                        assert(live[i].0 != live[j].0);
                    }
                }
            }
        },
        None => {},
    }
}

/// An insertion of a key that is not among the entries keeps what holds of
/// all entries, keeps them within the capacity, and puts the new entry last.
pub proof fn lemma_inserted(
    live: Seq<EntryView>,
    capacity: nat,
    key: KeyView,
    handle: u64,
    after: Seq<EntryView>,
    replaced: Option<u64>,
    bound: u64,
)
    requires
        insert_in(live, capacity, key, handle, after, replaced),
        !has_key(live, key),
        distinct_keys(live),
        capacity >= 1,
    ensures
        replaced is None,
        after == room_made(live, capacity).push((key, handle)),
        distinct_keys(after),
        handles_below(live, bound) && handle < bound ==> handles_below(after, bound),
        live.len() <= capacity ==> after.len() <= capacity,
{
    if replaced is Some {
        let i = choose|i: int| 0 <= i < live.len() && #[trigger] live[i] == (key, replaced->0);
        assert(live[i].0 == key);
    }
    let kept = room_made(live, capacity);
    let dropped = live.len() - kept.len();
    assert(kept == live.skip(dropped));
    lemma_swept(live, dropped, bound);
    assert forall|a: int, b: int| 0 <= a < b < after.len() implies (#[trigger] after[a]).0 != (
    #[trigger] after[b]).0 by {
        assert(after[a] == kept[a]);
        if b < kept.len() {
            assert(after[b] == kept[b]);
        } else {
            assert(kept[a] == live[a + dropped]);
        }
    }
    if handles_below(live, bound) && handle < bound {
        assert forall|a: int| 0 <= a < after.len() implies (#[trigger] after[a]).1 < bound by {
            if a < kept.len() {
                assert(after[a] == kept[a]);
            }
        }
    }
}

/// `LruCache::with_expiry_duration_and_capacity`, with the time to live in
/// whole seconds (`Duration::from_secs`): an empty cache of that capacity.
/// The constructor allocates room for `capacity` keys at once, and panics
/// where that many cannot be addressed: such a capacity is left out.
#[verifier::external_body]
pub(crate) fn cache_new(ttl_secs: u32, capacity: usize) -> (cache: LruCache<
    (u8, String, String),
    u64,
>)
    requires
        capacity * 128 <= usize::MAX,
    ensures
        cache_entries(cache) == Seq::<EntryView>::empty(),
        cache_capacity(cache) == capacity,
{
    LruCache::with_expiry_duration_and_capacity(Duration::from_secs(ttl_secs as u64), capacity)
}

/// `LruCache::get`: sweeps out the entries that have expired, which are some
/// number of the least recently used ones, then looks the key up among the
/// rest; an entry found becomes the most recently used.
#[verifier::external_body]
pub(crate) fn cache_get(
    cache: &mut LruCache<(u8, String, String), u64>,
    key: &(u8, String, String),
) -> (found: Option<u64>)
    ensures
        cache_capacity(*final(cache)) == cache_capacity(*old(cache)),
        exists|n: int|
            0 <= n <= cache_entries(*old(cache)).len() && lookup_in(
                #[trigger] cache_entries(*old(cache)).skip(n),
                key@,
                cache_entries(*final(cache)),
                found,
            ),
{
    cache.get(key).copied()
}

/// `LruCache::insert`: sweeps out the entries that have expired, which are
/// some number of the least recently used ones, then replaces the entry with
/// the key, or makes room and adds one. A cache of capacity 0 is left out:
/// the insertion would panic.
#[verifier::external_body]
pub(crate) fn cache_insert(
    cache: &mut LruCache<(u8, String, String), u64>,
    key: (u8, String, String),
    handle: u64,
) -> (replaced: Option<u64>)
    requires
        cache_capacity(*old(cache)) >= 1,
    ensures
        cache_capacity(*final(cache)) == cache_capacity(*old(cache)),
        exists|n: int|
            0 <= n <= cache_entries(*old(cache)).len() && insert_in(
                #[trigger] cache_entries(*old(cache)).skip(n),
                cache_capacity(*old(cache)),
                key@,
                handle,
                cache_entries(*final(cache)),
                replaced,
            ),
{
    cache.insert(key, handle)
}

} // verus!
