//! Event ids that have been dealt with.
//!
//! The ids that were noted longest ago are forgotten when there are too many.

use vstd::prelude::*;

use crate::constants::DEFAULT_LRU_SIZE;
use crate::lru_cache::{has_key, pushed};
use crate::recency_map::{keys_distinct, pushed_facts, RecencyMap};

verus! {

/// Event ids that have been dealt with.
pub struct SeenIds {
    ids: RecencyMap<()>,
}

impl View for SeenIds {
    type V = Seq<(Seq<char>, ())>;

    closed spec fn view(&self) -> Seq<(Seq<char>, ())> {
        self.ids@
    }
}

/// The ids after one more has been noted.
pub open spec fn noted(ids: Seq<(Seq<char>, ())>, id: Seq<char>) -> Seq<(Seq<char>, ())> {
    pushed(ids, DEFAULT_LRU_SIZE as nat, id, ())
}

impl SeenIds {
    /// Whether the store is well formed.
    pub closed spec fn wf(&self) -> bool {
        self.ids.wf() && self.ids.capacity() == DEFAULT_LRU_SIZE
    }

    /// Each id is noted at most once, and no more ids than may be.
    pub proof fn wf_facts(&self)
        requires
            self.wf(),
        ensures
            keys_distinct(self@),
            self@.len() <= DEFAULT_LRU_SIZE,
    {
        self.ids.wf_facts();
    }

    /// No id.
    pub fn new() -> (r: Self)
        ensures
            r.wf(),
            r@ == Seq::<(Seq<char>, ())>::empty(),
    {
        SeenIds { ids: RecencyMap::with_capacity(DEFAULT_LRU_SIZE) }
    }

    /// Whether an id has been noted.
    pub fn contains(&self, id: &str) -> (r: bool)
        requires
            self.wf(),
        ensures
            r == has_key(self@, id@),
    {
        self.ids.contains(id)
    }

    /// Notes an id.
    pub fn insert(&mut self, id: String)
        requires
            old(self).wf(),
        ensures
            final(self).wf(),
            final(self)@ == noted(old(self)@, id@),
    {
        let _ = self.ids.push(id, ());
    }
}

/// An id that has just been noted is found.
pub proof fn noted_is_seen(ids: Seq<(Seq<char>, ())>, id: Seq<char>)
    requires
        keys_distinct(ids),
        ids.len() <= DEFAULT_LRU_SIZE,
    ensures
        has_key(noted(ids, id), id),
{
    pushed_facts(ids, DEFAULT_LRU_SIZE as nat, id, ());
}

} // verus!
