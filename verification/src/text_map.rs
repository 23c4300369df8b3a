//! A map keyed by text.
//!
//! [`TextMap`] is modelled by a mathematical map from the characters of a key to its value.
//! No key occurs twice.

use vstd::prelude::*;

use crate::text::{same_text, texts};

verus! {

/// The keys of an association list, in order.
pub open spec fn keys_of<T>(entries: Seq<(String, T)>) -> Seq<Seq<char>> {
    Seq::new(entries.len(), |i: int| entries[i].0@)
}

/// The map that an association list with distinct keys stands for.
pub open spec fn map_of<T>(entries: Seq<(String, T)>) -> Map<Seq<char>, T> {
    Map::new(
        |k: Seq<char>| keys_of(entries).contains(k),
        |k: Seq<char>| entries[keys_of(entries).index_of(k)].1,
    )
}

proof fn lookup<T>(entries: Seq<(String, T)>, i: int)
    requires
        keys_of(entries).no_duplicates(),
        0 <= i < entries.len(),
    ensures
        map_of(entries).contains_key(entries[i].0@),
        map_of(entries)[entries[i].0@] == entries[i].1,
{
    let keys = keys_of(entries);
    assert(keys[i] == entries[i].0@);
    assert(keys.contains(entries[i].0@));
    let j = keys.index_of(entries[i].0@);
    assert(keys[j] == keys[i]);
    assert(j == i);
}

proof fn lookup_absent<T>(entries: Seq<(String, T)>, k: Seq<char>)
    requires
        forall|i: int| 0 <= i < entries.len() ==> (#[trigger] entries[i]).0@ != k,
    ensures
        !map_of(entries).contains_key(k),
{
    let keys = keys_of(entries);
    if keys.contains(k) {
        let j = keys.index_of(k);
        assert(keys[j] == k);
        assert(entries[j].0@ == k);
    }
}

proof fn map_of_same<T>(a: Seq<(String, T)>, m: Map<Seq<char>, T>)
    requires
        keys_of(a).no_duplicates(),
        forall|i: int| #![trigger a[i]] 0 <= i < a.len() ==> m.contains_key(a[i].0@) && m[a[i].0@] == a[i].1,
        forall|k: Seq<char>| #[trigger] m.contains_key(k) ==> keys_of(a).contains(k),
    ensures
        map_of(a) == m,
{
    let keys = keys_of(a);
    assert forall|k: Seq<char>| map_of(a).contains_key(k) == m.contains_key(k) by {
        if keys.contains(k) {
            let j = keys.index_of(k);
            assert(a[j].0@ == k);
        }
    }
    assert forall|k: Seq<char>| map_of(a).contains_key(k) implies map_of(a)[k] == m[k] by {
        let j = keys.index_of(k);
        assert(keys.contains(k));
        assert(a[j].0@ == k);
    }
    assert(map_of(a) =~= m);
}

/// A map from text to values of type `T`.
pub struct TextMap<T> {
    entries: Vec<(String, T)>,
}

impl<T> View for TextMap<T> {
    type V = Map<Seq<char>, T>;

    closed spec fn view(&self) -> Map<Seq<char>, T> {
        map_of(self.entries@)
    }
}

impl<T> TextMap<T> {
    #[verifier::type_invariant]
    spec fn distinct_keys(&self) -> bool {
        keys_of(self.entries@).no_duplicates()
    }

    /// There are finitely many keys.
    pub proof fn is_finite(&self)
        ensures
            self@.dom().finite(),
    {
        let keys = keys_of(self.entries@);
        assert(self@.dom() =~= keys.to_set());
    }

    /// An empty map.
    pub fn new() -> (r: Self)
        ensures
            r@ == Map::<Seq<char>, T>::empty(),
    {
        let r = TextMap { entries: Vec::new() };
        assert(map_of(r.entries@) =~= Map::<Seq<char>, T>::empty());
        r
    }

    /// Position of `key`, if it is present.
    fn position(&self, key: &str) -> (r: Option<usize>)
        ensures
            match r {
                Some(i) => i < self.entries@.len() && self.entries@[i as int].0@ == key@,
                None => forall|i: int|
                    0 <= i < self.entries@.len() ==> (#[trigger] self.entries@[i]).0@ != key@,
            },
    {
        let mut i: usize = 0;
        while i < self.entries.len()
            invariant
                i <= self.entries@.len(),
                forall|j: int| 0 <= j < i ==> (#[trigger] self.entries@[j]).0@ != key@,
            decreases self.entries@.len() - i,
        {
            if same_text(self.entries[i].0.as_str(), key) {
                return Some(i);
            }
            i = i + 1;
        }
        None
    }

    /// Number of keys.
    pub fn len(&self) -> (r: usize)
        ensures
            r == self@.len(),
            self@.dom().finite(),
    {
        proof {
            use_type_invariant(self);
            let keys = keys_of(self.entries@);
            keys.unique_seq_to_set();
            assert(self@.dom() =~= keys.to_set());
        }
        self.entries.len()
    }

    /// Whether `key` is present.
    pub fn contains_key(&self, key: &str) -> (r: bool)
        ensures
            r == self@.contains_key(key@),
    {
        proof {
            use_type_invariant(self);
        }
        match self.position(key) {
            Some(i) => {
                proof {
                    lookup(self.entries@, i as int);
                }
                true
            },
            None => {
                proof {
                    lookup_absent(self.entries@, key@);
                }
                false
            },
        }
    }

    /// The value under `key`.
    pub fn get(&self, key: &str) -> (r: Option<&T>)
        ensures
            match r {
                Some(v) => self@.contains_key(key@) && *v == self@[key@],
                None => !self@.contains_key(key@),
            },
    {
        proof {
            use_type_invariant(self);
        }
        match self.position(key) {
            Some(i) => {
                proof {
                    lookup(self.entries@, i as int);
                }
                Some(&self.entries[i].1)
            },
            None => {
                proof {
                    lookup_absent(self.entries@, key@);
                }
                None
            },
        }
    }

    /// Removes `key` and returns its value.
    pub fn remove(&mut self, key: &str) -> (r: Option<T>)
        ensures
            final(self)@ == old(self)@.remove(key@),
            match r {
                Some(v) => old(self)@.contains_key(key@) && v == old(self)@[key@],
                None => !old(self)@.contains_key(key@),
            },
    {
        proof {
            use_type_invariant(&*self);
        }
        match self.position(key) {
            Some(i) => {
                let ghost before = self.entries@;
                proof {
                    lookup(before, i as int);
                    let after = before.remove(i as int);
                    let kb = keys_of(before);
                    assert forall|a: int, b: int|
                        0 <= a < after.len() && 0 <= b < after.len() && a != b implies keys_of(
                        after,
                    )[a] != keys_of(after)[b] by {
                        let a2 = if a < i { a } else { a + 1 };
                        let b2 = if b < i { b } else { b + 1 };
                        assert(kb[a2] != kb[b2]);
                    }
                    let m = map_of(before).remove(key@);
                    assert forall|j: int| #![trigger after[j]] 0 <= j < after.len() implies m.contains_key(after[j].0@)
                        && m[after[j].0@] == after[j].1 by {
                        let j2 = if j < i { j } else { j + 1 };
                        lookup(before, j2);
                        assert(kb[j2] != kb[i as int]);
                    }
                    assert forall|k: Seq<char>| #[trigger] m.contains_key(k) implies keys_of(
                        after,
                    ).contains(k) by {
                        let j = kb.index_of(k);
                        assert(kb.contains(k));
                        let j2 = if j < i { j } else { j - 1 };
                        assert(keys_of(after)[j2] == k);
                    }
                    map_of_same(after, m);
                }
                let mut entries: Vec<(String, T)> = Vec::new();
                core::mem::swap(&mut self.entries, &mut entries);
                let (_, v) = entries.remove(i);
                self.entries = entries;
                Some(v)
            },
            None => {
                proof {
                    lookup_absent(self.entries@, key@);
                    assert(map_of(self.entries@).remove(key@) =~= map_of(self.entries@));
                }
                None
            },
        }
    }

    /// Puts `value` under `key`, replacing what was there.
    pub fn insert(&mut self, key: String, value: T) -> (r: Option<T>)
        ensures
            final(self)@ == old(self)@.insert(key@, value),
            match r {
                Some(v) => old(self)@.contains_key(key@) && v == old(self)@[key@],
                None => !old(self)@.contains_key(key@),
            },
    {
        let ghost m0 = self@;
        let r = self.remove(key.as_str());
        proof {
            use_type_invariant(&*self);
            let before = self.entries@;
            let after = before.push((key, value));
            let kb = keys_of(before);
            assert forall|a: int| 0 <= a < before.len() implies kb[a] != key@ by {
                lookup(before, a);
            }
            assert(keys_of(after) =~= kb.push(key@));
            let m = m0.insert(key@, value);
            assert forall|j: int| #![trigger after[j]] 0 <= j < after.len() implies m.contains_key(after[j].0@)
                && m[after[j].0@] == after[j].1 by {
                if j < before.len() {
                    lookup(before, j);
                    assert(kb[j] != key@);
                }
            }
            assert forall|k: Seq<char>| #[trigger] m.contains_key(k) implies keys_of(
                after,
            ).contains(k) by {
                if k == key@ {
                    assert(keys_of(after)[before.len() as int] == k);
                } else {
                    assert(map_of(before).contains_key(k));
                    let j = kb.index_of(k);
                    assert(kb.contains(k));
                    assert(keys_of(after)[j] == k);
                }
            }
            map_of_same(after, m);
        }
        let mut entries: Vec<(String, T)> = Vec::new();
        core::mem::swap(&mut self.entries, &mut entries);
        entries.push((key, value));
        self.entries = entries;
        r
    }

    /// Removes every key.
    pub fn clear(&mut self)
        ensures
            final(self)@ == Map::<Seq<char>, T>::empty(),
    {
        self.entries = Vec::new();
        assert(map_of(self.entries@) =~= Map::<Seq<char>, T>::empty());
    }

    /// Every key once, in no particular order.
    pub fn keys(&self) -> (r: Vec<String>)
        ensures
            texts(r@).no_duplicates(),
            texts(r@).to_set() == self@.dom(),
            r@.len() == self@.len(),
    {
        let mut out: Vec<String> = Vec::new();
        let mut i: usize = 0;
        while i < self.entries.len()
            invariant
                i <= self.entries@.len(),
                out@.len() == i,
                forall|j: int| 0 <= j < i ==> #[trigger] out@[j] == self.entries@[j].0,
            decreases self.entries@.len() - i,
        {
            out.push(self.entries[i].0.clone());
            i = i + 1;
        }
        proof {
            use_type_invariant(self);
            assert(texts(out@) =~= keys_of(self.entries@));
            keys_of(self.entries@).unique_seq_to_set();
            assert(self@.dom() =~= keys_of(self.entries@).to_set());
        }
        out
    }
}

} // verus!
