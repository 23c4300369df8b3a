//! A bounded map that forgets the least recently used entry.
//!
//! [`RecencyMap`] keeps its values in slots and leaves the order of its keys to the `lru`
//! crate's cache. It is modelled by the sequence of its entries, the most recently used first.

use lru::LruCache;
use vstd::prelude::*;

use crate::text::texts;
use crate::lru_cache::{
    displaced, entry_texts, has_key, in_front, index_of_key, lru_cap, lru_capacity, lru_clear, lru_entries,
    lru_get, lru_len, lru_list, lru_new, lru_peek, lru_pop, lru_push, opt_entry, pushed, value_of,
    without,
};

verus! {

/// Whether no key occurs twice.
pub open spec fn keys_distinct<A>(entries: Seq<(Seq<char>, A)>) -> bool {
    forall|i: int, j: int|
        0 <= i < entries.len() && 0 <= j < entries.len() && i != j ==> (#[trigger] entries[i]).0
            != (#[trigger] entries[j]).0
}

/// With distinct keys, an entry is found under its key.
pub proof fn entry_found<A>(entries: Seq<(Seq<char>, A)>, i: int)
    requires
        keys_distinct(entries),
        0 <= i < entries.len(),
    ensures
        has_key(entries, entries[i].0),
        index_of_key(entries, entries[i].0) == i,
        value_of(entries, entries[i].0) == Some(entries[i].1),
{
    let j = index_of_key(entries, entries[i].0);
    assert(0 <= j < entries.len() && entries[j].0 == entries[i].0);
}

/// What taking a key out does to the entries: the others stay, in their order.
pub proof fn without_facts<A>(entries: Seq<(Seq<char>, A)>, key: Seq<char>)
    requires
        keys_distinct(entries),
    ensures
        keys_distinct(without(entries, key)),
        !has_key(without(entries, key), key),
        without(entries, key).len() == entries.len() - (if has_key(entries, key) {
            1int
        } else {
            0
        }),
        forall|k: Seq<char>| #[trigger]
            value_of(without(entries, key), k) == if k == key {
                None
            } else {
                value_of(entries, k)
            },
        forall|k: Seq<char>| #[trigger]
            has_key(without(entries, key), k) == (k != key && has_key(entries, k)),
{
    let rest = without(entries, key);
    if has_key(entries, key) {
        let at = index_of_key(entries, key);
        assert forall|i: int| 0 <= i < rest.len() implies #[trigger] rest[i] == entries[if i < at {
            i
        } else {
            i + 1
        }] && rest[i].0 != key by {}
        assert forall|k: Seq<char>| #[trigger]
            has_key(rest, k) == (k != key && has_key(entries, k)) by {
            if has_key(rest, k) {
                let i = index_of_key(rest, k);
                let j = if i < at {
                    i
                } else {
                    i + 1
                };
                assert(entries[j].0 == k);
            }
            if k != key && has_key(entries, k) {
                let i = index_of_key(entries, k);
                let j = if i < at {
                    i
                } else {
                    i - 1
                };
                assert(rest[j].0 == k);
            }
        }
    }
    assert(keys_distinct(rest));
    assert forall|k: Seq<char>| #[trigger] value_of(rest, k) == (if k == key {
        None
    } else {
        value_of(entries, k)
    }) by {
        if has_key(rest, k) {
            let i = index_of_key(rest, k);
            if has_key(entries, key) {
                let at = index_of_key(entries, key);
                let j = if i < at {
                    i
                } else {
                    i + 1
                };
                entry_found(entries, j);
            }
        }
    }
}

/// What putting a new entry in front does.
pub proof fn front_facts<A>(entries: Seq<(Seq<char>, A)>, key: Seq<char>, value: A)
    requires
        keys_distinct(entries),
        !has_key(entries, key),
    ensures
        ({
            let more = seq![(key, value)] + entries;
            &&& keys_distinct(more)
            &&& more.len() == entries.len() + 1
            &&& forall|k: Seq<char>| #[trigger]
                has_key(more, k) == (k == key || has_key(entries, k))
            &&& forall|k: Seq<char>| #[trigger]
                value_of(more, k) == if k == key {
                    Some(value)
                } else {
                    value_of(entries, k)
                }
        }),
{
    let more = seq![(key, value)] + entries;
    assert forall|i: int| 0 < i < more.len() implies #[trigger] more[i] == entries[i - 1]
        && more[i].0 != key by {}
    assert(keys_distinct(more));
    assert(more[0] == (key, value));
    entry_found(more, 0);
    assert forall|k: Seq<char>| #[trigger]
        has_key(more, k) == (k == key || has_key(entries, k)) by {
        if has_key(entries, k) {
            let i = index_of_key(entries, k);
            assert(more[i + 1].0 == k);
        }
        if has_key(more, k) && k != key {
            let i = index_of_key(more, k);
            assert(entries[i - 1].0 == k);
        }
    }
    assert forall|k: Seq<char>| #[trigger] value_of(more, k) == (if k == key {
        Some(value)
    } else {
        value_of(entries, k)
    }) by {
        if k != key && has_key(entries, k) {
            let i = index_of_key(entries, k);
            assert(more[i + 1] == entries[i]);
            entry_found(more, i + 1);
        }
    }
}

/// Dropping the last entry is taking out its key.
pub proof fn last_is_without<A>(entries: Seq<(Seq<char>, A)>)
    requires
        keys_distinct(entries),
        entries.len() > 0,
    ensures
        entries.drop_last() == without(entries, entries.last().0),
{
    entry_found(entries, entries.len() - 1);
    assert(entries.drop_last() =~= without(entries, entries.last().0));
}

/// What a push does: the new entry is found under its key, at most one other entry leaves, and a
/// bounded map stays bounded.
pub proof fn pushed_facts<A>(
    entries: Seq<(Seq<char>, A)>,
    capacity: nat,
    key: Seq<char>,
    value: A,
)
    requires
        keys_distinct(entries),
        entries.len() <= capacity,
        capacity >= 1,
    ensures
        ({
            let after = pushed(entries, capacity, key, value);
            let gone = displaced(entries, capacity, key);
            &&& keys_distinct(after)
            &&& after.len() <= capacity
            &&& after.len() >= 1
            &&& after[0] == (key, value)
            &&& value_of(after, key) == Some(value)
            &&& forall|k: Seq<char>|
                k != key ==> #[trigger] value_of(after, k) == (if gone matches Some((g, _)) && g
                    == k {
                    None
                } else {
                    value_of(entries, k)
                })
        }),
{
    if !has_key(entries, key) && entries.len() == capacity {
        last_is_without(entries);
        without_facts(entries, entries.last().0);
        front_facts(entries.drop_last(), key, value);
    } else {
        without_facts(entries, key);
        front_facts(without(entries, key), key, value);
    }
}

/// The entries with each value seen through `f`.
pub open spec fn mapped<A, B>(entries: Seq<(Seq<char>, A)>, f: spec_fn(A) -> B) -> Seq<
    (Seq<char>, B),
> {
    Seq::new(entries.len(), |i: int| (entries[i].0, f(entries[i].1)))
}

/// Looking up, taking out and pushing entries does not depend on how their values are seen.
pub proof fn mapped_facts<A, B>(
    entries: Seq<(Seq<char>, A)>,
    f: spec_fn(A) -> B,
    capacity: nat,
    key: Seq<char>,
    value: A,
)
    requires
        keys_distinct(entries),
    ensures
        keys_distinct(mapped(entries, f)),
        has_key(mapped(entries, f), key) == has_key(entries, key),
        value_of(mapped(entries, f), key) == (match value_of(entries, key) {
            Some(v) => Some(f(v)),
            None => None,
        }),
        without(mapped(entries, f), key) == mapped(without(entries, key), f),
        in_front(mapped(entries, f), key, f(value)) == mapped(in_front(entries, key, value), f),
        entries.len() <= capacity && 1 <= capacity ==> pushed(
            mapped(entries, f),
            capacity,
            key,
            f(value),
        ) == mapped(pushed(entries, capacity, key, value), f),
        entries.len() <= capacity && 1 <= capacity ==> displaced(mapped(entries, f), capacity, key)
            == (match displaced(entries, capacity, key) {
            Some((k, v)) => Some((k, f(v))),
            None => None,
        }),
{
    let m = mapped(entries, f);
    assert forall|i: int, j: int| 0 <= i < m.len() && 0 <= j < m.len() && i != j implies (
    #[trigger] m[i]).0 != (#[trigger] m[j]).0 by {
        assert(entries[i].0 != entries[j].0);
    }
    if has_key(entries, key) {
        let i = index_of_key(entries, key);
        assert(m[i].0 == key);
        entry_found(m, i);
    }
    if has_key(m, key) {
        let i = index_of_key(m, key);
        assert(entries[i].0 == key);
    }
    assert(without(m, key) =~= mapped(without(entries, key), f));
    assert(in_front(m, key, f(value)) =~= mapped(in_front(entries, key, value), f));
    if entries.len() <= capacity && 1 <= capacity {
        assert(pushed(m, capacity, key, f(value)) =~= mapped(
            pushed(entries, capacity, key, value),
            f,
        ));
    }
}

/// The entries for which `keep` holds, in their order.
pub open spec fn retain<A>(
    entries: Seq<(Seq<char>, A)>,
    keep: spec_fn((Seq<char>, A)) -> bool,
) -> Seq<(Seq<char>, A)>
    decreases entries.len(),
{
    if entries.len() == 0 {
        entries
    } else {
        let rest = retain(entries.drop_last(), keep);
        if keep(entries.last()) {
            rest.push(entries.last())
        } else {
            rest
        }
    }
}

/// What retaining keeps: distinct keys, and exactly the entries that are wanted.
pub proof fn retain_facts<A>(
    entries: Seq<(Seq<char>, A)>,
    keep: spec_fn((Seq<char>, A)) -> bool,
)
    requires
        keys_distinct(entries),
    ensures
        keys_distinct(retain(entries, keep)),
        retain(entries, keep).len() <= entries.len(),
        forall|e: (Seq<char>, A)| #[trigger]
            retain(entries, keep).contains(e) <==> entries.contains(e) && keep(e),
    decreases entries.len(),
{
    if entries.len() > 0 {
        let init = entries.drop_last();
        let last = entries.last();
        assert(keys_distinct(init)) by {
            assert forall|i: int, j: int| 0 <= i < init.len() && 0 <= j < init.len() && i != j implies (
            #[trigger] init[i]).0 != (#[trigger] init[j]).0 by {
                assert(entries[i].0 != entries[j].0);
            }
        }
        retain_facts(init, keep);
        let rest = retain(init, keep);
        let all = retain(entries, keep);
        assert forall|e: (Seq<char>, A)| entries.contains(e) == (init.contains(e) || e == last) by {
            if entries.contains(e) {
                let i = entries.index_of(e);
                if i < init.len() {
                    assert(init[i] == e);
                }
            }
            if init.contains(e) {
                let i = init.index_of(e);
                assert(entries[i] == e);
            }
            assert(entries[entries.len() - 1] == last);
        }
        if keep(last) {
            assert forall|e: (Seq<char>, A)| all.contains(e) == (rest.contains(e) || e == last) by {
                if all.contains(e) {
                    let i = all.index_of(e);
                    if i < rest.len() {
                        assert(rest[i] == e);
                    }
                }
                if rest.contains(e) {
                    let i = rest.index_of(e);
                    assert(all[i] == e);
                }
                assert(all[rest.len() as int] == last);
            }
            assert forall|i: int, j: int| 0 <= i < all.len() && 0 <= j < all.len() && i != j implies (
            #[trigger] all[i]).0 != (#[trigger] all[j]).0 by {
                assert forall|x: int| 0 <= x < rest.len() implies (#[trigger] rest[x]).0
                    != last.0 by {
                    assert(rest.contains(rest[x]));
                    let y = init.index_of(rest[x]);
                    assert(init.contains(rest[x]));
                    assert(entries[y].0 != entries[entries.len() - 1].0);
                }
                if i < rest.len() {
                    assert(all[i] == rest[i]);
                }
                if j < rest.len() {
                    assert(all[j] == rest[j]);
                }
            }
        }
    }
}

/// Retaining does not depend on how the values are seen.
pub proof fn mapped_retain<A, B>(
    entries: Seq<(Seq<char>, A)>,
    f: spec_fn(A) -> B,
    keep: spec_fn((Seq<char>, A)) -> bool,
    keep_seen: spec_fn((Seq<char>, B)) -> bool,
)
    requires
        forall|e: (Seq<char>, A)| #[trigger] keep(e) == keep_seen((e.0, f(e.1))),
    ensures
        retain(mapped(entries, f), keep_seen) == mapped(retain(entries, keep), f),
    decreases entries.len(),
{
    let m = mapped(entries, f);
    if entries.len() > 0 {
        let init = entries.drop_last();
        mapped_retain(init, f, keep, keep_seen);
        assert(m.drop_last() =~= mapped(init, f));
        assert(m.last() == (entries.last().0, f(entries.last().1)));
        assert(keep(entries.last()) == keep_seen(m.last()));
        assert(retain(m, keep_seen) =~= mapped(retain(entries, keep), f));
    } else {
        assert(retain(m, keep_seen) =~= mapped(retain(entries, keep), f));
    }
}

/// With distinct keys, an entry is there exactly when its value is found under its key.
pub proof fn contains_is_value<A>(entries: Seq<(Seq<char>, A)>, key: Seq<char>, value: A)
    requires
        keys_distinct(entries),
    ensures
        entries.contains((key, value)) <==> value_of(entries, key) == Some(value),
{
    if entries.contains((key, value)) {
        let i = entries.index_of((key, value));
        entry_found(entries, i);
    }
    if value_of(entries, key) == Some(value) {
        let i = index_of_key(entries, key);
        assert(entries[i] == (key, value));
    }
}

/// What is found under a key after retaining.
pub proof fn retain_lookup<A>(
    entries: Seq<(Seq<char>, A)>,
    keep: spec_fn((Seq<char>, A)) -> bool,
    key: Seq<char>,
)
    requires
        keys_distinct(entries),
    ensures
        value_of(retain(entries, keep), key) == (match value_of(entries, key) {
            Some(v) => if keep((key, v)) {
                Some(v)
            } else {
                None
            },
            None => None,
        }),
{
    let r = retain(entries, keep);
    retain_facts(entries, keep);
    if value_of(entries, key) is Some {
        let v = value_of(entries, key).unwrap();
        contains_is_value(entries, key, v);
        contains_is_value(r, key, v);
    }
    if value_of(r, key) is Some {
        let v = value_of(r, key).unwrap();
        contains_is_value(entries, key, v);
        contains_is_value(r, key, v);
    }
}

proof fn without_push<A>(init: Seq<(Seq<char>, A)>, last: (Seq<char>, A), key: Seq<char>)
    requires
        keys_distinct(init.push(last)),
    ensures
        without(init.push(last), key) == if last.0 == key {
            init
        } else {
            without(init, key).push(last)
        },
{
    let all = init.push(last);
    assert(keys_distinct(init)) by {
        assert forall|i: int, j: int| 0 <= i < init.len() && 0 <= j < init.len() && i != j implies (
        #[trigger] init[i]).0 != (#[trigger] init[j]).0 by {
            assert(all[i].0 != all[j].0);
        }
    }
    if last.0 == key {
        assert(all[init.len() as int].0 == key);
        entry_found(all, init.len() as int);
        assert(without(all, key) =~= init);
    } else if has_key(init, key) {
        let i = index_of_key(init, key);
        assert(all[i].0 == key);
        entry_found(all, i);
        assert(without(all, key) =~= without(init, key).push(last));
    } else {
        if has_key(all, key) {
            let i = index_of_key(all, key);
            assert(init[i].0 == key);
        }
    }
}

/// Retaining what is wanted and has another key is retaining what is wanted and then taking out
/// the key.
pub proof fn retain_without<A>(
    entries: Seq<(Seq<char>, A)>,
    keep: spec_fn((Seq<char>, A)) -> bool,
    narrower: spec_fn((Seq<char>, A)) -> bool,
    key: Seq<char>,
)
    requires
        keys_distinct(entries),
        forall|e: (Seq<char>, A)| #[trigger] narrower(e) == (keep(e) && e.0 != key),
    ensures
        retain(entries, narrower) == without(retain(entries, keep), key),
    decreases entries.len(),
{
    if entries.len() > 0 {
        let init = entries.drop_last();
        let last = entries.last();
        assert(entries =~= init.push(last));
        retain_facts(entries, keep);
        assert(keys_distinct(init)) by {
            assert forall|i: int, j: int| 0 <= i < init.len() && 0 <= j < init.len() && i != j implies (
            #[trigger] init[i]).0 != (#[trigger] init[j]).0 by {
                assert(entries[i].0 != entries[j].0);
            }
        }
        retain_without(init, keep, narrower, key);
        if keep(last) {
            without_push(retain(init, keep), last, key);
            if last.0 == key {
                retain_facts(init, keep);
                let rest = retain(init, keep);
                if has_key(rest, key) {
                    let i = index_of_key(rest, key);
                    let all = retain(entries, keep);
                    assert(all[i] == rest[i]);
                    assert(all[rest.len() as int] == last);
                }
            }
        }
    } else {
        assert(!has_key(retain(entries, keep), key));
    }
}

/// Retaining everything changes nothing.
pub proof fn retain_all<A>(
    entries: Seq<(Seq<char>, A)>,
    keep: spec_fn((Seq<char>, A)) -> bool,
)
    requires
        forall|i: int| 0 <= i < entries.len() ==> keep(#[trigger] entries[i]),
    ensures
        retain(entries, keep) == entries,
    decreases entries.len(),
{
    if entries.len() > 0 {
        let init = entries.drop_last();
        assert forall|i: int| 0 <= i < init.len() implies keep(#[trigger] init[i]) by {
            assert(init[i] == entries[i]);
        }
        retain_all(init, keep);
        assert(keep(entries[entries.len() - 1]));
        assert(init.push(entries.last()) =~= entries);
    }
}

/// Retaining by two tests that agree on the entries gives the same.
pub proof fn retain_agrees<A>(
    entries: Seq<(Seq<char>, A)>,
    a: spec_fn((Seq<char>, A)) -> bool,
    b: spec_fn((Seq<char>, A)) -> bool,
)
    requires
        forall|i: int| 0 <= i < entries.len() ==> a(#[trigger] entries[i]) == b(entries[i]),
    ensures
        retain(entries, a) == retain(entries, b),
    decreases entries.len(),
{
    if entries.len() > 0 {
        let init = entries.drop_last();
        assert forall|i: int| 0 <= i < init.len() implies a(#[trigger] init[i]) == b(init[i]) by {
            assert(init[i] == entries[i]);
        }
        retain_agrees(init, a, b);
        assert(a(entries[entries.len() - 1]) == b(entries[entries.len() - 1]));
    }
}

/// A bounded map that forgets the least recently used entry.
pub struct RecencyMap<T> {
    cache: LruCache<String, u64>,
    slots: Vec<Option<T>>,
    free: Vec<u64>,
}

/// The entries of a cache with the values that their handles stand for.
pub open spec fn resolved<T>(entries: Seq<(Seq<char>, u64)>, slots: Seq<Option<T>>) -> Seq<
    (Seq<char>, T),
> {
    Seq::new(entries.len(), |i: int| (entries[i].0, slots[entries[i].1 as int]->Some_0))
}

impl<T> View for RecencyMap<T> {
    type V = Seq<(Seq<char>, T)>;

    closed spec fn view(&self) -> Seq<(Seq<char>, T)> {
        resolved(lru_entries(self.cache), self.slots@)
    }
}

/// Whether every entry has a slot of its own that holds a value, and the free slots are other
/// ones.
spec fn slots_sound<T>(entries: Seq<(Seq<char>, u64)>, slots: Seq<Option<T>>, free: Seq<u64>) -> bool {
    &&& forall|i: int|
        0 <= i < entries.len() ==> (#[trigger] entries[i]).1 < slots.len()
            && slots[entries[i].1 as int] is Some
    &&& forall|i: int, j: int|
        0 <= i < entries.len() && 0 <= j < entries.len() && i != j ==> (#[trigger] entries[i]).1
            != (#[trigger] entries[j]).1
    &&& forall|i: int| 0 <= i < free.len() ==> (#[trigger] free[i]) < slots.len()
    &&& forall|i: int, j: int|
        0 <= i < entries.len() && 0 <= j < free.len() ==> (#[trigger] entries[i]).1
            != #[trigger] free[j]
    &&& free.no_duplicates()
}

/// Whether a slot is in use, but neither by an entry nor free.
spec fn is_fresh<T>(
    entries: Seq<(Seq<char>, u64)>,
    slots: Seq<Option<T>>,
    free: Seq<u64>,
    h: u64,
) -> bool {
    &&& h < slots.len()
    &&& slots[h as int] is Some
    &&& forall|i: int| 0 <= i < entries.len() ==> (#[trigger] entries[i]).1 != h
    &&& forall|j: int| 0 <= j < free.len() ==> #[trigger] free[j] != h
}

proof fn slots_after_removal<T>(
    entries: Seq<(Seq<char>, u64)>,
    slots: Seq<Option<T>>,
    free: Seq<u64>,
    at: int,
)
    requires
        slots_sound(entries, slots, free),
        0 <= at < entries.len(),
    ensures
        slots_sound(
            entries.remove(at),
            slots.update(entries[at].1 as int, None),
            free.push(entries[at].1),
        ),
        forall|i: int|
            0 <= i < entries.len() - 1 ==> (#[trigger] entries.remove(at)[i]).1 != entries[at].1,
{
    let rest = entries.remove(at);
    let h = entries[at].1;
    assert forall|i: int| 0 <= i < rest.len() implies #[trigger] rest[i] == entries[if i < at {
        i
    } else {
        i + 1
    }] && rest[i].1 != h by {}
    let more = free.push(h);
    assert forall|i: int, j: int| 0 <= i < rest.len() && 0 <= j < more.len() implies (
    #[trigger] rest[i]).1 != #[trigger] more[j] by {
        if j < free.len() {
            assert(more[j] == free[j]);
        }
    }
    assert(forall|j: int| 0 <= j < free.len() ==> #[trigger] free[j] != h);
}

proof fn slots_after_front<T>(
    entries: Seq<(Seq<char>, u64)>,
    slots: Seq<Option<T>>,
    free: Seq<u64>,
    key: Seq<char>,
    handle: u64,
    free_before: Seq<u64>,
    released: u64,
)
    requires
        slots_sound(entries, slots, free),
        handle < slots.len(),
        slots[handle as int] is Some,
        forall|i: int| 0 <= i < entries.len() ==> (#[trigger] entries[i]).1 != handle,
        forall|j: int| 0 <= j < free_before.len() ==> #[trigger] free_before[j] != handle,
        free == free_before || (free == free_before.push(released) && released != handle),
    ensures
        slots_sound(seq![(key, handle)] + entries, slots, free),
{
    let more = seq![(key, handle)] + entries;
    assert(more[0] == (key, handle));
    assert(forall|i: int| 0 < i < more.len() ==> #[trigger] more[i] == entries[i - 1]);
    assert forall|j: int| 0 <= j < free.len() implies #[trigger] free[j] != handle by {
        if j < free_before.len() {
            assert(free[j] == free_before[j]);
        }
    }
}

proof fn resolved_keys<T>(entries: Seq<(Seq<char>, u64)>, slots: Seq<Option<T>>, key: Seq<char>)
    requires
        keys_distinct(entries),
    ensures
        keys_distinct(resolved(entries, slots)),
        has_key(resolved(entries, slots), key) == has_key(entries, key),
        has_key(entries, key) ==> index_of_key(resolved(entries, slots), key) == index_of_key(
            entries,
            key,
        ) && value_of(resolved(entries, slots), key) == Some(
            slots[value_of(entries, key).unwrap() as int]->Some_0,
        ),
        resolved(entries, slots).len() == entries.len(),
{
    let r = resolved(entries, slots);
    assert forall|i: int, j: int| 0 <= i < r.len() && 0 <= j < r.len() && i != j implies (
    #[trigger] r[i]).0 != (#[trigger] r[j]).0 by {
        assert(entries[i].0 != entries[j].0);
    }
    if has_key(entries, key) {
        let i = index_of_key(entries, key);
        assert(r[i].0 == key);
        entry_found(r, i);
    }
    if has_key(r, key) {
        let i = index_of_key(r, key);
        assert(entries[i].0 == key);
    }
}

impl<T> RecencyMap<T> {
    /// The most entries that the map holds.
    pub closed spec fn capacity(&self) -> nat {
        lru_capacity(self.cache)
    }

    /// Whether the map is well formed.
    pub closed spec fn wf(&self) -> bool {
        &&& keys_distinct(lru_entries(self.cache))
        &&& slots_sound(lru_entries(self.cache), self.slots@, self.free@)
        &&& lru_entries(self.cache).len() <= lru_capacity(self.cache)
        &&& 1 <= lru_capacity(self.cache)
    }

    /// What well-formedness means for the entries.
    pub proof fn wf_facts(&self)
        requires
            self.wf(),
        ensures
            keys_distinct(self@),
            self@.len() <= self.capacity(),
            1 <= self.capacity(),
    {
        resolved_keys(lru_entries(self.cache), self.slots@, Seq::empty());
    }

    /// An empty map for `capacity` entries; a capacity of `0` counts as `1`.
    pub fn with_capacity(capacity: usize) -> (r: Self)
        requires
            capacity <= usize::MAX / 128,
        ensures
            r.wf(),
            r@ == Seq::<(Seq<char>, T)>::empty(),
            r.capacity() == if capacity >= 1 {
                capacity as nat
            } else {
                1
            },
    {
        let bounded: usize = if capacity >= 1 {
            capacity
        } else {
            1
        };
        let r = RecencyMap { cache: lru_new(bounded), slots: Vec::new(), free: Vec::new() };
        assert(r@ =~= Seq::<(Seq<char>, T)>::empty());
        r
    }

    /// Number of entries.
    pub fn len(&self) -> (r: usize)
        ensures
            r == self@.len(),
    {
        lru_len(&self.cache)
    }

    /// The most entries that the map holds.
    pub fn limit(&self) -> (r: usize)
        ensures
            r == self.capacity(),
    {
        lru_cap(&self.cache)
    }

    /// Whether there is an entry `key`. The order stays as it is.
    pub fn contains(&self, key: &str) -> (r: bool)
        requires
            self.wf(),
        ensures
            r == has_key(self@, key@),
    {
        proof {
            resolved_keys(lru_entries(self.cache), self.slots@, key@);
        }
        lru_peek(&self.cache, key).is_some()
    }

    /// The value under `key`. The order stays as it is.
    pub fn peek(&self, key: &str) -> (r: Option<&T>)
        requires
            self.wf(),
        ensures
            match r {
                Some(v) => value_of(self@, key@) == Some(*v),
                None => value_of(self@, key@) is None,
            },
    {
        proof {
            resolved_keys(lru_entries(self.cache), self.slots@, key@);
        }
        match lru_peek(&self.cache, key) {
            Some(h) => {
                assert(lru_entries(self.cache)[index_of_key(lru_entries(self.cache), key@)].1 == h);
                let n: usize = self.slots.len();
                assert(h < n);
                self.slots[h as usize].as_ref()
            },
            None => None,
        }
    }

    /// Moves the entry `key` to the front. Tells whether there is one.
    pub fn promote(&mut self, key: &str) -> (r: bool)
        requires
            old(self).wf(),
        ensures
            final(self).wf(),
            final(self).capacity() == old(self).capacity(),
            r == has_key(old(self)@, key@),
            final(self)@ == match value_of(old(self)@, key@) {
                Some(v) => in_front(old(self)@, key@, v),
                None => old(self)@,
            },
    {
        let ghost entries = lru_entries(self.cache);
        let ghost slots = self.slots@;
        let r = lru_get(&mut self.cache, key);
        proof {
            resolved_keys(entries, slots, key@);
            if has_key(entries, key@) {
                let at = index_of_key(entries, key@);
                let after = lru_entries(self.cache);
                without_facts(entries, key@);
                front_facts(without(entries, key@), key@, entries[at].1);
                assert forall|i: int| 0 < i < after.len() implies #[trigger] after[i] == entries[if i
                    - 1 < at {
                    i - 1
                } else {
                    i
                }] by {}
                assert(after[0] == entries[at]);
                assert(slots_sound(after, slots, self.free@));
                assert(self@ =~= in_front(resolved(entries, slots), key@, slots[entries[at].1 as int]->Some_0));
            }
        }
        r.is_some()
    }

    /// Puts a value into a free slot.
    fn store(&mut self, value: T) -> (h: u64)
        requires
            slots_sound(lru_entries(old(self).cache), old(self).slots@, old(self).free@),
        ensures
            final(self).cache == old(self).cache,
            slots_sound(lru_entries(old(self).cache), final(self).slots@, final(self).free@),
            is_fresh(lru_entries(old(self).cache), final(self).slots@, final(self).free@, h),
            final(self).slots@[h as int] == Some(value),
            forall|i: int|
                0 <= i < lru_entries(old(self).cache).len() ==> final(self).slots@[(
                #[trigger] lru_entries(old(self).cache)[i]).1 as int]
                    == old(self).slots@[lru_entries(old(self).cache)[i].1 as int],
    {
        let ghost entries = lru_entries(self.cache);
        let ghost free0 = self.free@;
        match self.free.pop() {
            Some(h) => {
                proof {
                    assert(h == free0[free0.len() - 1]);
                    assert(self.free@ =~= free0.drop_last());
                    assert(forall|j: int| 0 <= j < self.free@.len() ==> self.free@[j] == free0[j]);
                }
                let n: usize = self.slots.len();
                assert(h < n);
                self.slots[h as usize] = Some(value);
                h
            },
            None => {
                let h: usize = self.slots.len();
                self.slots.push(Some(value));
                h as u64
            },
        }
    }

    /// Empties a slot.
    fn release(&mut self, h: u64) -> (r: Option<T>)
        requires
            h < old(self).slots@.len(),
        ensures
            final(self).cache == old(self).cache,
            final(self).slots@ == old(self).slots@.update(h as int, None),
            final(self).free@ == old(self).free@.push(h),
            r == old(self).slots@[h as int],
    {
        let n: usize = self.slots.len();
        assert(h < n);
        let mut slot: Option<T> = None;
        core::mem::swap(&mut self.slots[h as usize], &mut slot);
        self.free.push(h);
        assert(self.slots@ =~= old(self).slots@.update(h as int, None));
        slot
    }

    /// Takes out the entry `key` and returns its value.
    pub fn pop(&mut self, key: &str) -> (r: Option<T>)
        requires
            old(self).wf(),
        ensures
            final(self).wf(),
            final(self).capacity() == old(self).capacity(),
            r == value_of(old(self)@, key@),
            final(self)@ == without(old(self)@, key@),
    {
        let ghost entries = lru_entries(self.cache);
        let ghost slots = self.slots@;
        let ghost free = self.free@;
        proof {
            resolved_keys(entries, slots, key@);
            without_facts(entries, key@);
        }
        match lru_pop(&mut self.cache, key) {
            Some(h) => {
                let ghost at = index_of_key(entries, key@);
                assert(entries[at].1 == h);
                let r = self.release(h);
                proof {
                    slots_after_removal(entries, slots, free, at);
                    assert(self@ =~= without(resolved(entries, slots), key@));
                }
                r
            },
            None => None,
        }
    }

    /// Puts `value` under `key`, in front. Returned is the entry that was replaced or that had to
    /// leave.
    pub fn push(&mut self, key: String, value: T) -> (r: Option<(String, T)>)
        requires
            old(self).wf(),
        ensures
            final(self).wf(),
            final(self).capacity() == old(self).capacity(),
            final(self)@ == pushed(old(self)@, old(self).capacity(), key@, value),
            opt_entry(r) == displaced(old(self)@, old(self).capacity(), key@),
    {
        let ghost entries = lru_entries(self.cache);
        let ghost slots0 = self.slots@;
        let ghost cap = lru_capacity(self.cache);
        let ghost name = key@;
        let handle: u64 = self.store(value);
        let ghost slots1 = self.slots@;
        let ghost free1 = self.free@;
        proof {
            resolved_keys(entries, slots0, name);
            assert(resolved(entries, slots1) =~= resolved(entries, slots0));
            resolved_keys(entries, slots1, name);
            pushed_facts(entries, cap, name, handle);
        }
        match lru_push(&mut self.cache, key, handle) {
            Some((old_key, h)) => {
                let ghost at = if has_key(entries, name) {
                    index_of_key(entries, name)
                } else {
                    entries.len() - 1
                };
                assert(entries[at].1 == h);
                let r = self.release(h);
                proof {
                    let rest = entries.remove(at);
                    if !has_key(entries, name) {
                        assert(entries.drop_last() =~= rest);
                    }
                    slots_after_removal(entries, slots1, free1, at);
                    slots_after_front(rest, self.slots@, self.free@, name, handle, free1, h);
                    assert(lru_entries(self.cache) == seq![(name, handle)] + rest);
                    let v1 = resolved(entries, slots1);
                    assert(resolved(rest, self.slots@) =~= v1.remove(at));
                    assert(self@ =~= seq![(name, value)] + v1.remove(at));
                    if !has_key(entries, name) {
                        assert(v1.drop_last() =~= v1.remove(at));
                    }
                    assert(self@ == pushed(v1, cap, name, value));
                }
                match r {
                    Some(v) => Some((old_key, v)),
                    None => None,
                }
            },
            None => {
                proof {
                    slots_after_front(entries, slots1, free1, name, handle, free1, handle);
                    assert(lru_entries(self.cache) == seq![(name, handle)] + entries);
                    assert(self@ =~= seq![(name, value)] + resolved(entries, slots1));
                }
                None
            },
        }
    }

    /// Takes out every entry.
    pub fn clear(&mut self)
        requires
            old(self).wf(),
        ensures
            final(self).wf(),
            final(self).capacity() == old(self).capacity(),
            final(self)@ == Seq::<(Seq<char>, T)>::empty(),
    {
        lru_clear(&mut self.cache);
        self.slots = Vec::new();
        self.free = Vec::new();
        assert(self@ =~= Seq::<(Seq<char>, T)>::empty());
    }

    /// The keys, the most recently used first.
    pub fn keys(&self) -> (r: Vec<String>)
        ensures
            r@.len() == self@.len(),
            forall|i: int| 0 <= i < r@.len() ==> (#[trigger] r@[i])@ == self@[i].0,
    {
        let list = lru_list(&self.cache);
        let mut out: Vec<String> = Vec::new();
        let mut i: usize = 0;
        while i < list.len()
            invariant
                i <= list@.len(),
                out@.len() == i,
                entry_texts(list@) == lru_entries(self.cache),
                forall|j: int| 0 <= j < i ==> (#[trigger] out@[j])@ == lru_entries(self.cache)[j].0,
            decreases list@.len() - i,
        {
            assert(entry_texts(list@)[i as int].0 == list@[i as int].0@);
            out.push(list[i].0.clone());
            i = i + 1;
        }
        assert(entry_texts(list@).len() == list@.len());
        out
    }

    /// Puts `value` in place of the value under `key`, without moving the entry. Returned is the
    /// value that was there; where there is none nothing changes.
    pub fn replace(&mut self, key: &str, value: T) -> (r: Option<T>)
        requires
            old(self).wf(),
        ensures
            final(self).wf(),
            final(self).capacity() == old(self).capacity(),
            r == value_of(old(self)@, key@),
            final(self)@ == if has_key(old(self)@, key@) {
                old(self)@.update(index_of_key(old(self)@, key@), (key@, value))
            } else {
                old(self)@
            },
    {
        let ghost entries = lru_entries(self.cache);
        let ghost before = self.slots@;
        proof {
            resolved_keys(entries, before, key@);
        }
        match lru_peek(&self.cache, key) {
            Some(h) => {
                let ghost at = index_of_key(entries, key@);
                assert(entries[at].1 == h);
                let n: usize = self.slots.len();
                assert(h < n);
                let mut slot: Option<T> = Some(value);
                core::mem::swap(&mut self.slots[h as usize], &mut slot);
                proof {
                    assert(self.slots@ =~= before.update(h as int, Some(value)));
                    assert(slots_sound(entries, self.slots@, self.free@));
                    assert(self@ =~= resolved(entries, before).update(at, (key@, value)));
                }
                slot
            },
            None => None,
        }
    }

    /// Takes out every entry whose key is listed.
    pub fn pop_all(&mut self, keys: &Vec<String>)
        requires
            old(self).wf(),
        ensures
            final(self).wf(),
            final(self).capacity() == old(self).capacity(),
            final(self)@ == retain(
                old(self)@,
                |e: (Seq<char>, T)| !texts(keys@).contains(e.0),
            ),
    {
        let ghost start = self@;
        let ghost names = texts(keys@);
        proof {
            self.wf_facts();
            retain_all(start, |e: (Seq<char>, T)| !names.take(0).contains(e.0));
        }
        let mut i: usize = 0;
        while i < keys.len()
            invariant
                i <= keys@.len(),
                names == texts(keys@),
                keys_distinct(start),
                self.wf(),
                self.capacity() == old(self).capacity(),
                self@ == retain(start, |e: (Seq<char>, T)| !names.take(i as int).contains(e.0)),
            decreases keys@.len() - i,
        {
            let _ = self.pop(keys[i].as_str());
            proof {
                let name = keys@[i as int]@;
                assert(names[i as int] == name);
                assert(names.take(i + 1) =~= names.take(i as int).push(name));
                let keep = |e: (Seq<char>, T)| !names.take(i as int).contains(e.0);
                let narrower = |e: (Seq<char>, T)| !names.take(i + 1).contains(e.0);
                assert forall|e: (Seq<char>, T)| #[trigger] narrower(e) == (keep(e) && e.0
                    != name) by {
                    let a = names.take(i as int);
                    let b = names.take(i + 1);
                    if a.contains(e.0) {
                        let j = a.index_of(e.0);
                        assert(b[j] == e.0);
                    }
                    assert(b[i as int] == name);
                    if b.contains(e.0) && e.0 != name {
                        let j = b.index_of(e.0);
                        assert(a[j] == e.0);
                    }
                }
                retain_without(start, keep, narrower, name);
            }
            i = i + 1;
        }
        assert(names.take(names.len() as int) =~= names);
    }
}

} // verus!
