//! Pending requests of a client, by the id of the event that carried them.

use vstd::prelude::*;

use crate::text::texts;
use crate::constants::DEFAULT_LRU_SIZE;
use crate::json::{Json, JsonV};
use crate::lru_cache::{has_key, in_front, pushed, value_of, without};
use crate::recency_map::{
    keys_distinct, mapped, mapped_facts, mapped_retain, retain, retain_agrees, retain_facts,
    without_facts, RecencyMap,
};

verus! {

/// A request that waits for its response.
#[derive(Debug, PartialEq, Eq)]
pub struct PendingRequest {
    /// The id that the request was sent under.
    pub original_id: Json,
    /// Whether the request opens the session.
    pub is_initialize: bool,
    /// When the request was registered or last touched.
    pub registered_at: u64,
}

/// Model of [`PendingRequest`].
pub struct PendingV {
    pub original_id: JsonV,
    pub is_initialize: bool,
    pub registered_at: u64,
}

impl View for PendingRequest {
    type V = PendingV;

    open spec fn view(&self) -> PendingV {
        PendingV {
            original_id: self.original_id@,
            is_initialize: self.is_initialize,
            registered_at: self.registered_at,
        }
    }
}

/// The model of a pending request.
pub open spec fn pending_view() -> spec_fn(PendingRequest) -> PendingV {
    |p: PendingRequest| p@
}

/// How much time has passed since `at`.
pub open spec fn age(now: u64, at: u64) -> int {
    if now > at {
        now - at
    } else {
        0
    }
}

/// How much time has passed since `at`.
pub fn age_of(now: u64, at: u64) -> (r: u64)
    ensures
        r == age(now, at),
{
    if now > at {
        now - at
    } else {
        0
    }
}

/// The pending requests of a client. The oldest one is forgotten when there are too many.
pub struct ClientCorrelationStore {
    pending_requests: RecencyMap<PendingRequest>,
}

impl View for ClientCorrelationStore {
    type V = Seq<(Seq<char>, PendingV)>;

    closed spec fn view(&self) -> Seq<(Seq<char>, PendingV)> {
        mapped(self.pending_requests@, pending_view())
    }
}

/// The test for a request that is not yet overdue.
pub open spec fn still_pending(now: u64, timeout: u64) -> spec_fn((Seq<char>, PendingV)) -> bool {
    |e: (Seq<char>, PendingV)| age(now, e.1.registered_at) < timeout
}

impl ClientCorrelationStore {
    /// Whether the store is well formed.
    pub closed spec fn wf(&self) -> bool {
        self.pending_requests.wf()
    }

    /// The most requests that the store holds.
    pub closed spec fn capacity(&self) -> nat {
        self.pending_requests.capacity()
    }

    /// An event id is registered at most once, and no more than the capacity.
    pub proof fn wf_facts(&self)
        requires
            self.wf(),
        ensures
            keys_distinct(self@),
            self@.len() <= self.capacity(),
    {
        self.pending_requests.wf_facts();
        assert forall|i: int, j: int|
            0 <= i < self@.len() && 0 <= j < self@.len() && i != j implies (#[trigger] self@[i]).0
            != (#[trigger] self@[j]).0 by {
            assert(self.pending_requests@[i].0 != self.pending_requests@[j].0);
        }
    }

    proof fn lookup_facts(&self, key: Seq<char>)
        requires
            self.wf(),
        ensures
            has_key(self@, key) == has_key(self.pending_requests@, key),
            value_of(self@, key) == (match value_of(self.pending_requests@, key) {
                Some(p) => Some(p@),
                None => None,
            }),
            without(self@, key) == mapped(
                without(self.pending_requests@, key),
                pending_view(),
            ),
    {
        self.pending_requests.wf_facts();
        if has_key(self.pending_requests@, key) {
            mapped_facts(
                self.pending_requests@,
                pending_view(),
                self.pending_requests.capacity(),
                key,
                value_of(self.pending_requests@, key).unwrap(),
            );
        } else if has_key(self@, key) {
            let i = crate::lru_cache::index_of_key(self@, key);
            assert(self.pending_requests@[i].0 == key);
        }
    }

    /// A store of the default capacity.
    pub fn new() -> (r: Self)
        ensures
            r.wf(),
            r@ == Seq::<(Seq<char>, PendingV)>::empty(),
            r.capacity() == DEFAULT_LRU_SIZE,
    {
        ClientCorrelationStore::with_max_pending(DEFAULT_LRU_SIZE)
    }

    /// A store of the given capacity; `0` counts as `1`.
    pub fn with_max_pending(max_pending: usize) -> (r: Self)
        requires
            max_pending <= usize::MAX / 128,
        ensures
            r.wf(),
            r@ == Seq::<(Seq<char>, PendingV)>::empty(),
            r.capacity() == if max_pending >= 1 {
                max_pending as nat
            } else {
                1
            },
    {
        let r = ClientCorrelationStore { pending_requests: RecencyMap::with_capacity(max_pending) };
        assert(r@ =~= Seq::<(Seq<char>, PendingV)>::empty());
        r
    }

    /// Registers a request.
    pub fn register(&mut self, event_id: String, original_id: Json, is_initialize: bool, now: u64)
        requires
            old(self).wf(),
        ensures
            final(self).wf(),
            final(self).capacity() == old(self).capacity(),
            final(self)@ == pushed(
                old(self)@,
                old(self).capacity(),
                event_id@,
                (PendingV { original_id: original_id@, is_initialize, registered_at: now }),
            ),
    {
        proof {
            self.pending_requests.wf_facts();
            mapped_facts(
                self.pending_requests@,
                pending_view(),
                self.pending_requests.capacity(),
                event_id@,
                PendingRequest { original_id, is_initialize, registered_at: now },
            );
        }
        let _ = self.pending_requests.push(
            event_id,
            PendingRequest { original_id, is_initialize, registered_at: now },
        );
    }

    /// Whether the request under `event_id` opens the session.
    pub fn is_initialize_request(&self, event_id: &str) -> (r: bool)
        requires
            self.wf(),
        ensures
            r == (value_of(self@, event_id@) matches Some(p) && p.is_initialize),
    {
        proof {
            self.lookup_facts(event_id@);
        }
        match self.pending_requests.peek(event_id) {
            Some(p) => p.is_initialize,
            None => false,
        }
    }

    /// Whether a request is pending under `event_id`.
    pub fn contains(&self, event_id: &str) -> (r: bool)
        requires
            self.wf(),
        ensures
            r == has_key(self@, event_id@),
    {
        proof {
            self.lookup_facts(event_id@);
        }
        self.pending_requests.contains(event_id)
    }

    /// Forgets the request under `event_id`. Tells whether there was one.
    pub fn remove(&mut self, event_id: &str) -> (r: bool)
        requires
            old(self).wf(),
        ensures
            final(self).wf(),
            final(self).capacity() == old(self).capacity(),
            final(self)@ == without(old(self)@, event_id@),
            r == has_key(old(self)@, event_id@),
    {
        proof {
            self.lookup_facts(event_id@);
        }
        self.pending_requests.pop(event_id).is_some()
    }

    /// The id that the request under `event_id` was sent under.
    pub fn get_original_id(&self, event_id: &str) -> (r: Option<Json>)
        requires
            self.wf(),
        ensures
            match r {
                Some(id) => value_of(self@, event_id@) matches Some(p) && p.original_id == id@,
                None => value_of(self@, event_id@) is None,
            },
    {
        proof {
            self.lookup_facts(event_id@);
        }
        match self.pending_requests.peek(event_id) {
            Some(p) => Some(p.original_id.duplicate()),
            None => None,
        }
    }

    /// Keeps the request under `event_id` from becoming overdue: it counts as registered at
    /// `now`, and as used last. Tells whether there was one.
    pub fn touch(&mut self, event_id: &str, now: u64) -> (r: bool)
        requires
            old(self).wf(),
        ensures
            final(self).wf(),
            final(self).capacity() == old(self).capacity(),
            r == has_key(old(self)@, event_id@),
            final(self)@ == match value_of(old(self)@, event_id@) {
                Some(p) => in_front(
                    old(self)@,
                    event_id@,
                    (PendingV { registered_at: now, ..p }),
                ),
                None => old(self)@,
            },
    {
        let ghost before = self@;
        let ghost raw = self.pending_requests@;
        proof {
            self.lookup_facts(event_id@);
            self.pending_requests.wf_facts();
            without_facts(raw, event_id@);
        }
        match self.pending_requests.pop(event_id) {
            Some(p) => {
                let touched = PendingRequest {
                    original_id: p.original_id,
                    is_initialize: p.is_initialize,
                    registered_at: now,
                };
                proof {
                    mapped_facts(
                        raw,
                        pending_view(),
                        self.pending_requests.capacity(),
                        event_id@,
                        touched,
                    );
                }
                let _ = self.pending_requests.push(event_id.to_owned(), touched);
                assert(self@ =~= mapped(in_front(raw, event_id@, touched), pending_view()));
                true
            },
            None => false,
        }
    }

    /// Number of pending requests.
    pub fn count(&self) -> (r: usize)
        ensures
            r == self@.len(),
    {
        self.pending_requests.len()
    }

    /// Forgets the requests that are `timeout` or more old at `now`, and returns how many.
    pub fn sweep_expired(&mut self, now: u64, timeout: u64) -> (r: usize)
        requires
            old(self).wf(),
        ensures
            final(self).wf(),
            final(self).capacity() == old(self).capacity(),
            final(self)@ == retain(old(self)@, still_pending(now, timeout)),
            r == old(self)@.len() - final(self)@.len(),
    {
        let ghost start = self.pending_requests@;
        proof {
            self.pending_requests.wf_facts();
        }
        let keys = self.pending_requests.keys();
        let before: usize = self.pending_requests.len();
        let mut expired: Vec<String> = Vec::new();
        let mut i: usize = 0;
        while i < keys.len()
            invariant
                i <= keys@.len(),
                keys@.len() == start.len(),
                self.wf(),
                self.pending_requests@ == start,
                self.capacity() == old(self).capacity(),
                keys_distinct(start),
                forall|j: int| 0 <= j < keys@.len() ==> (#[trigger] keys@[j])@ == start[j].0,
                forall|j: int|
                    0 <= j < i ==> (texts(expired@).contains((#[trigger] start[j]).0) <==> age(
                        now,
                        start[j].1.registered_at,
                    ) >= timeout),
                forall|k: Seq<char>| #[trigger]
                    texts(expired@).contains(k) ==> exists|j: int|
                        0 <= j < i && (#[trigger] start[j]).0 == k,
            decreases keys@.len() - i,
        {
            let ghost done = texts(expired@);
            proof {
                crate::recency_map::entry_found(start, i as int);
                assert(keys@[i as int]@ == start[i as int].0);
                if done.contains(start[i as int].0) {
                    let j = choose|j: int| 0 <= j < i && (#[trigger] start[j]).0 == start[i as int].0;
                    assert(start[j].0 != start[i as int].0);
                }
            }
            let overdue = match self.pending_requests.peek(keys[i].as_str()) {
                Some(p) => age_of(now, p.registered_at) >= timeout,
                None => false,
            };
            if overdue {
                expired.push(keys[i].clone());
                proof {
                    let more = texts(expired@);
                    assert(more =~= done.push(start[i as int].0));
                    assert(more[done.len() as int] == start[i as int].0);
                    assert forall|k: Seq<char>| #[trigger] more.contains(k) == (done.contains(k) || k
                        == start[i as int].0) by {
                        if done.contains(k) {
                            let x = done.index_of(k);
                            assert(more[x] == k);
                        }
                    }
                    assert forall|j: int| 0 <= j < i + 1 implies (more.contains(
                        (#[trigger] start[j]).0,
                    ) <==> age(now, start[j].1.registered_at) >= timeout) by {
                        if j < i {
                            assert(start[j].0 != start[i as int].0);
                        }
                    }
                }
            }
            i = i + 1;
        }
        self.pending_requests.pop_all(&expired);
        proof {
            let in_time = |e: (Seq<char>, PendingRequest)| age(now, e.1.registered_at) < timeout;
            retain_agrees(
                start,
                |e: (Seq<char>, PendingRequest)| !texts(expired@).contains(e.0),
                in_time,
            );
            retain_facts(start, in_time);
            mapped_retain(start, pending_view(), in_time, still_pending(now, timeout));
        }
        before - self.pending_requests.len()
    }

    /// Forgets every request.
    pub fn clear(&mut self)
        requires
            old(self).wf(),
        ensures
            final(self).wf(),
            final(self).capacity() == old(self).capacity(),
            final(self)@ == Seq::<(Seq<char>, PendingV)>::empty(),
    {
        self.pending_requests.clear();
        assert(self@ =~= Seq::<(Seq<char>, PendingV)>::empty());
    }
}

} // verus!
