//! The `lru` crate's cache, as the stores use it.
//!
//! A cache from text to handles is modelled by the sequence of its entries, the most recently
//! used first, and by its capacity.

use core::num::NonZeroUsize;

use lru::LruCache;
use vstd::prelude::*;

verus! {

/// The type of the `lru` crate's cache.
#[verifier::external_type_specification]
#[verifier::external_body]
#[verifier::reject_recursive_types(K)]
#[verifier::reject_recursive_types(V)]
#[verifier::reject_recursive_types(S)]
pub struct ExLruCache<K, V, S>(LruCache<K, V, S>);

/// The type of the `lru` crate's default hasher.
#[verifier::external_type_specification]
#[verifier::external_body]
pub struct ExDefaultHasher(lru::DefaultHasher);

/// The entries of a cache, the most recently used first.
pub uninterp spec fn lru_entries(cache: LruCache<String, u64>) -> Seq<(Seq<char>, u64)>;

/// The most entries that a cache was made to hold.
pub uninterp spec fn lru_capacity(cache: LruCache<String, u64>) -> nat;

/// Position of the entry `key`.
pub open spec fn index_of_key<A>(entries: Seq<(Seq<char>, A)>, key: Seq<char>) -> int {
    choose|i: int| 0 <= i < entries.len() && (#[trigger] entries[i]).0 == key
}

/// Whether there is an entry `key`.
pub open spec fn has_key<A>(entries: Seq<(Seq<char>, A)>, key: Seq<char>) -> bool {
    exists|i: int| 0 <= i < entries.len() && (#[trigger] entries[i]).0 == key
}

/// The value under `key`.
pub open spec fn value_of<A>(entries: Seq<(Seq<char>, A)>, key: Seq<char>) -> Option<A> {
    if has_key(entries, key) {
        Some(entries[index_of_key(entries, key)].1)
    } else {
        None
    }
}

/// The entries without `key`.
pub open spec fn without<A>(entries: Seq<(Seq<char>, A)>, key: Seq<char>) -> Seq<(Seq<char>, A)> {
    if has_key(entries, key) {
        entries.remove(index_of_key(entries, key))
    } else {
        entries
    }
}

/// The entries with `key` in front, as the most recently used.
pub open spec fn in_front<A>(
    entries: Seq<(Seq<char>, A)>,
    key: Seq<char>,
    value: A,
) -> Seq<(Seq<char>, A)> {
    seq![(key, value)] + without(entries, key)
}

/// What a push makes of the entries: the new entry is in front, and where the key is new and the
/// cache full the least recently used entry leaves.
pub open spec fn pushed<A>(
    entries: Seq<(Seq<char>, A)>,
    capacity: nat,
    key: Seq<char>,
    value: A,
) -> Seq<(Seq<char>, A)> {
    if !has_key(entries, key) && entries.len() == capacity {
        seq![(key, value)] + entries.drop_last()
    } else {
        in_front(entries, key, value)
    }
}

/// What a push hands back: the entry that it replaced or made leave.
pub open spec fn displaced<A>(
    entries: Seq<(Seq<char>, A)>,
    capacity: nat,
    key: Seq<char>,
) -> Option<(Seq<char>, A)> {
    if has_key(entries, key) {
        Some((key, value_of(entries, key).unwrap()))
    } else if entries.len() == capacity {
        Some(entries.last())
    } else {
        None
    }
}

/// The model of a displaced entry.
pub open spec fn opt_entry<A>(e: Option<(String, A)>) -> Option<(Seq<char>, A)> {
    match e {
        Some((k, v)) => Some((k@, v)),
        None => None,
    }
}

/// The model of a list of entries.
pub open spec fn entry_texts<A>(entries: Seq<(String, A)>) -> Seq<(Seq<char>, A)> {
    Seq::new(entries.len(), |i: int| (entries[i].0@, entries[i].1))
}

/// Calls `LruCache::new`: an empty cache for `capacity` entries. The cache allocates its table at
/// once, which fails for a capacity whose table cannot be addressed; such a capacity is left out.
#[verifier::external_body]
pub(crate) fn lru_new(capacity: usize) -> (r: LruCache<String, u64>)
    requires
        1 <= capacity <= usize::MAX / 128,
    ensures
        lru_entries(r) == Seq::<(Seq<char>, u64)>::empty(),
        lru_capacity(r) == capacity,
{
    LruCache::new(NonZeroUsize::new(capacity).unwrap())
}

/// Calls `LruCache::push`: an existing key gets the new value and moves to the front; otherwise
/// the new entry goes to the front and, where the cache is full, the last entry leaves. Returned
/// is the pair that was replaced or that left.
#[verifier::external_body]
pub(crate) fn lru_push(cache: &mut LruCache<String, u64>, key: String, value: u64) -> (r: Option<
    (String, u64),
>)
    ensures
        lru_entries(*final(cache)) == pushed(
            lru_entries(*old(cache)),
            lru_capacity(*old(cache)),
            key@,
            value,
        ),
        lru_capacity(*final(cache)) == lru_capacity(*old(cache)),
        opt_entry(r) == displaced(lru_entries(*old(cache)), lru_capacity(*old(cache)), key@),
{
    cache.push(key, value)
}

/// Calls `LruCache::get`: the value under `key`, whose entry moves to the front.
#[verifier::external_body]
pub(crate) fn lru_get(cache: &mut LruCache<String, u64>, key: &str) -> (r: Option<u64>)
    ensures
        r == value_of(lru_entries(*old(cache)), key@),
        lru_entries(*final(cache)) == match r {
            Some(value) => in_front(lru_entries(*old(cache)), key@, value),
            None => lru_entries(*old(cache)),
        },
        lru_capacity(*final(cache)) == lru_capacity(*old(cache)),
{
    cache.get(key).copied()
}

/// Calls `LruCache::peek`: the value under `key`; the order stays as it is.
#[verifier::external_body]
pub(crate) fn lru_peek(cache: &LruCache<String, u64>, key: &str) -> (r: Option<u64>)
    ensures
        r == value_of(lru_entries(*cache), key@),
{
    cache.peek(key).copied()
}

/// Calls `LruCache::pop`: takes out the entry `key` and returns its value.
#[verifier::external_body]
pub(crate) fn lru_pop(cache: &mut LruCache<String, u64>, key: &str) -> (r: Option<u64>)
    ensures
        r == value_of(lru_entries(*old(cache)), key@),
        lru_entries(*final(cache)) == without(lru_entries(*old(cache)), key@),
        lru_capacity(*final(cache)) == lru_capacity(*old(cache)),
{
    cache.pop(key)
}

/// Calls `LruCache::len`: the number of entries.
#[verifier::external_body]
pub(crate) fn lru_len(cache: &LruCache<String, u64>) -> (r: usize)
    ensures
        r == lru_entries(*cache).len(),
{
    cache.len()
}

/// Calls `LruCache::cap`: the most entries that the cache was made to hold.
#[verifier::external_body]
pub(crate) fn lru_cap(cache: &LruCache<String, u64>) -> (r: usize)
    ensures
        r == lru_capacity(*cache),
{
    cache.cap().get()
}

/// Calls `LruCache::clear`: takes out every entry.
#[verifier::external_body]
pub(crate) fn lru_clear(cache: &mut LruCache<String, u64>)
    ensures
        lru_entries(*final(cache)) == Seq::<(Seq<char>, u64)>::empty(),
        lru_capacity(*final(cache)) == lru_capacity(*old(cache)),
{
    cache.clear()
}

/// Calls `LruCache::iter` and copies the entries: all of them, the most recently used first.
#[verifier::external_body]
pub(crate) fn lru_list(cache: &LruCache<String, u64>) -> (r: Vec<(String, u64)>)
    ensures
        entry_texts(r@) == lru_entries(*cache),
{
    cache.iter().map(|(k, v)| (k.clone(), *v)).collect()
}

} // verus!
