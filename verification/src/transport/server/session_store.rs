//! The clients of a server.
//!
//! There are at most as many as the store's capacity; the one that has been silent the longest
//! makes room for a new one, unless a request of it is still being worked on.

use vstd::prelude::*;

use super::correlation_store::{RouteStoreV, ServerEventRouteStore};
use crate::json::JsonV;
use crate::lru_cache::{displaced, has_key, in_front, pushed, value_of, without};
use crate::recency_map::{
    entry_found, front_facts, keys_distinct, mapped, mapped_facts, pushed_facts, retain,
    retain_agrees, retain_all, retain_facts, retain_lookup, retain_without, without_facts,
    RecencyMap,
};
use crate::text::{opt_text, same_text, texts};
use crate::transport::client::correlation_store::{age, age_of};
use crate::types::{ClientSession, ClientV};

verus! {

/// Default number of clients.
pub const DEFAULT_MAX_SESSIONS: usize = 1000;

/// What is known of a client.
#[derive(Clone, Copy, PartialEq, Eq, Structural, Debug)]
pub struct SessionSnapshot {
    /// Whether the client has opened its MCP session.
    pub is_initialized: bool,
    /// Whether the client's last message was encrypted.
    pub is_encrypted: bool,
    /// Whether the server's tags have been sent to the client.
    pub has_sent_common_tags: bool,
    /// Whether the client has used an ephemeral gift wrap.
    pub supports_ephemeral_gift_wrap: bool,
    /// Whether the client has announced encryption.
    pub supports_encryption: bool,
    /// Whether the client has announced ephemeral encryption.
    pub supports_ephemeral_encryption: bool,
    /// Whether the client has announced oversized transfers.
    pub supports_oversized_transfer: bool,
    /// Whether the client has announced open streams.
    pub supports_open_stream: bool,
}

impl ClientV {
    /// What is known of the client.
    pub open spec fn snapshot(self) -> SessionSnapshot {
        SessionSnapshot {
            is_initialized: self.is_initialized,
            is_encrypted: self.is_encrypted,
            has_sent_common_tags: self.has_sent_common_tags,
            supports_ephemeral_gift_wrap: self.supports_ephemeral_gift_wrap,
            supports_encryption: self.supports_encryption,
            supports_ephemeral_encryption: self.supports_ephemeral_encryption,
            supports_oversized_transfer: self.supports_oversized_transfer,
            supports_open_stream: self.supports_open_stream,
        }
    }
}

fn snapshot_of(s: &ClientSession) -> (r: SessionSnapshot)
    ensures
        r == s@.snapshot(),
{
    SessionSnapshot {
        is_initialized: s.is_initialized,
        is_encrypted: s.is_encrypted,
        has_sent_common_tags: s.has_sent_common_tags,
        supports_ephemeral_gift_wrap: s.supports_ephemeral_gift_wrap,
        supports_encryption: s.supports_encryption,
        supports_ephemeral_encryption: s.supports_ephemeral_encryption,
        supports_oversized_transfer: s.supports_oversized_transfer,
        supports_open_stream: s.supports_open_stream,
    }
}

/// The clients by public key, the most recently heard of first, and the most there may be.
pub struct SessionsV {
    pub entries: Seq<(Seq<char>, ClientV)>,
    pub capacity: nat,
}

/// What came of looking for a client.
#[derive(Debug, PartialEq, Eq)]
pub struct Admitted {
    /// Whether the client is new.
    pub created: bool,
    /// The public key of the client that is gone from the store, if one had to leave.
    pub evicted: Option<String>,
}

/// Whether a client has a request that is being worked on.
pub open spec fn is_busy(routes: RouteStoreV, client: Seq<char>) -> bool {
    routes.clients.contains_key(client) && routes.clients[client].len() > 0
}

impl SessionsV {
    /// The store after a new client has been put in front, and who is gone: the client that had
    /// to leave for it, if any, comes back with a clean session when it is busy, and then the one
    /// that had to leave for that client is gone.
    pub open spec fn with_new(self, client: Seq<char>, is_encrypted: bool, routes: RouteStoreV, now: u64) -> (
        SessionsV,
        Option<Seq<char>>,
    ) {
        let entries = pushed(self.entries, self.capacity, client, ClientV::fresh(is_encrypted, now));
        match displaced(self.entries, self.capacity, client) {
            Some((gone, session)) => if gone == client {
                (SessionsV { entries, ..self }, None)
            } else if is_busy(routes, gone) {
                (
                    SessionsV {
                        entries: pushed(
                            entries,
                            self.capacity,
                            gone,
                            ClientV::fresh(session.is_encrypted, now),
                        ),
                        ..self
                    },
                    match displaced(entries, self.capacity, gone) {
                        Some((other, _)) => Some(other),
                        None => None,
                    },
                )
            } else {
                (SessionsV { entries, ..self }, Some(gone))
            },
            None => (SessionsV { entries, ..self }, None),
        }
    }

    /// The store after a client has been looked for and, where it is not there, let in: the
    /// store, whether the client is new, and who had to leave.
    pub open spec fn admitted(self, client: Seq<char>, is_encrypted: bool, routes: RouteStoreV, now: u64) -> (
        SessionsV,
        bool,
        Option<Seq<char>>,
    ) {
        match value_of(self.entries, client) {
            Some(session) => (
                SessionsV {
                    entries: in_front(
                        self.entries,
                        client,
                        ClientV { is_encrypted, ..session },
                    ),
                    ..self
                },
                false,
                None,
            ),
            None => {
                let (after, evicted) = self.with_new(client, is_encrypted, routes, now);
                (after, true, evicted)
            },
        }
    }

    /// The store with a client's state replaced; the client moves to the front.
    pub open spec fn updated(self, client: Seq<char>, session: ClientV) -> SessionsV {
        SessionsV { entries: in_front(self.entries, client, session), ..self }
    }

    /// The store without the clients that have been silent for more than `timeout` at `now`.
    pub open spec fn without_silent(self, now: u64, timeout: u64) -> SessionsV {
        SessionsV { entries: retain(self.entries, not_silent(now, timeout)), ..self }
    }

    /// The keys of what is pending for clients that have been silent for more than `timeout`.
    pub open spec fn stale_ids(self, now: u64, timeout: u64) -> Set<Seq<char>> {
        Set::new(
            |id: Seq<char>|
                exists|i: int|
                    0 <= i < self.entries.len() && is_silent(
                        (#[trigger] self.entries[i]).1,
                        now,
                        timeout,
                    ) && pends(self.entries[i].1, id),
        )
    }

    /// Whether the keys are distinct and within the capacity.
    pub open spec fn bounded(self) -> bool {
        &&& keys_distinct(self.entries)
        &&& self.entries.len() <= self.capacity
        &&& 1 <= self.capacity
    }
}

/// Whether a client has been silent for more than `timeout` at `now`.
pub open spec fn is_silent(c: ClientV, now: u64, timeout: u64) -> bool {
    age(now, c.last_activity) > timeout
}

/// The test for a client that has not been silent for more than `timeout` at `now`.
pub open spec fn not_silent(now: u64, timeout: u64) -> spec_fn((Seq<char>, ClientV)) -> bool {
    |e: (Seq<char>, ClientV)| !is_silent(e.1, now, timeout)
}

/// Whether something is pending for a client under the key `id`.
pub open spec fn pends(c: ClientV, id: Seq<char>) -> bool {
    c.pending_requests.contains_key(id) || c.event_to_progress_token.contains_key(id)
}

/// The keys of the clients that have opened their MCP session, in order.
pub open spec fn initialized_keys(entries: Seq<(Seq<char>, ClientV)>) -> Seq<Seq<char>>
    decreases entries.len(),
{
    if entries.len() == 0 {
        Seq::empty()
    } else {
        let rest = initialized_keys(entries.drop_last());
        if entries.last().1.is_initialized {
            rest.push(entries.last().0)
        } else {
            rest
        }
    }
}

spec fn not_gone(gone: Set<Seq<char>>) -> spec_fn((Seq<char>, ClientV)) -> bool {
    |e: (Seq<char>, ClientV)| !gone.contains(e.0)
}

proof fn joined_contains(a: Seq<Seq<char>>, b: Seq<Seq<char>>, c: Seq<Seq<char>>, x: Seq<char>)
    ensures
        (a + b + c).contains(x) == (a.contains(x) || b.contains(x) || c.contains(x)),
{
    let all = a + b + c;
    if a.contains(x) {
        assert(all[a.index_of(x)] == x);
    }
    if b.contains(x) {
        assert(all[a.len() + b.index_of(x)] == x);
    }
    if c.contains(x) {
        assert(all[a.len() + b.len() + c.index_of(x)] == x);
    }
}

/// The clients of a server.
pub struct SessionStore {
    sessions: RecencyMap<ClientSession>,
}

/// The model of a client.
pub open spec fn client_view() -> spec_fn(ClientSession) -> ClientV {
    |s: ClientSession| s@
}

impl View for SessionStore {
    type V = SessionsV;

    closed spec fn view(&self) -> SessionsV {
        SessionsV {
            entries: mapped(self.sessions@, client_view()),
            capacity: self.sessions.capacity(),
        }
    }
}

impl SessionStore {
    /// Whether the store is well formed.
    pub closed spec fn wf(&self) -> bool {
        self.sessions.wf()
    }

    /// What well-formedness means for the clients.
    pub proof fn wf_facts(&self)
        requires
            self.wf(),
        ensures
            self@.bounded(),
    {
        self.sessions.wf_facts();
        assert forall|i: int, j: int|
            0 <= i < self@.entries.len() && 0 <= j < self@.entries.len() && i != j implies (
        #[trigger] self@.entries[i]).0 != (#[trigger] self@.entries[j]).0 by {
            assert(self.sessions@[i].0 != self.sessions@[j].0);
        }
    }

    /// A store of the default capacity.
    pub fn new() -> (r: Self)
        ensures
            r.wf(),
            r@ == (SessionsV { entries: Seq::empty(), capacity: DEFAULT_MAX_SESSIONS as nat }),
    {
        SessionStore::with_capacity(DEFAULT_MAX_SESSIONS)
    }

    /// A store for `max_sessions` clients; `0` counts as `1`.
    pub fn with_capacity(max_sessions: usize) -> (r: Self)
        requires
            max_sessions <= usize::MAX / 128,
        ensures
            r.wf(),
            r@ == (SessionsV {
                entries: Seq::empty(),
                capacity: if max_sessions >= 1 {
                    max_sessions as nat
                } else {
                    1
                },
            }),
    {
        let r = SessionStore { sessions: RecencyMap::with_capacity(max_sessions) };
        assert(r@.entries =~= Seq::<(Seq<char>, ClientV)>::empty());
        r
    }

    /// Puts a client in front, with this state. Returned is the entry that was replaced or that
    /// had to leave.
    fn put(&mut self, client_pubkey: String, session: ClientSession) -> (r: Option<
        (String, ClientSession),
    >)
        requires
            old(self).wf(),
        ensures
            final(self).wf(),
            final(self)@ == (SessionsV {
                entries: pushed(
                    old(self)@.entries,
                    old(self)@.capacity,
                    client_pubkey@,
                    session@,
                ),
                ..old(self)@
            }),
            match r {
                Some((k, s)) => displaced(
                    old(self)@.entries,
                    old(self)@.capacity,
                    client_pubkey@,
                ) == Some((k@, s@)),
                None => displaced(
                    old(self)@.entries,
                    old(self)@.capacity,
                    client_pubkey@,
                ) is None,
            },
    {
        proof {
            self.sessions.wf_facts();
            mapped_facts(
                self.sessions@,
                client_view(),
                self.sessions.capacity(),
                client_pubkey@,
                session,
            );
        }
        self.sessions.push(client_pubkey, session)
    }

    /// Takes a client out.
    fn take(&mut self, client_pubkey: &str) -> (r: Option<ClientSession>)
        requires
            old(self).wf(),
        ensures
            final(self).wf(),
            final(self)@ == (SessionsV {
                entries: without(old(self)@.entries, client_pubkey@),
                ..old(self)@
            }),
            match r {
                Some(s) => value_of(old(self)@.entries, client_pubkey@) == Some(s@),
                None => value_of(old(self)@.entries, client_pubkey@) is None,
            },
    {
        proof {
            self.sessions.wf_facts();
            if has_key(self.sessions@, client_pubkey@) {
                mapped_facts(
                    self.sessions@,
                    client_view(),
                    self.sessions.capacity(),
                    client_pubkey@,
                    value_of(self.sessions@, client_pubkey@).unwrap(),
                );
            } else {
                assert(!has_key(self@.entries, client_pubkey@)) by {
                    if has_key(self@.entries, client_pubkey@) {
                        let i = crate::lru_cache::index_of_key(self@.entries, client_pubkey@);
                        assert(self.sessions@[i].0 == client_pubkey@);
                    }
                }
            }
        }
        self.sessions.pop(client_pubkey)
    }

    /// The client's state, taken out so that it can be changed and [put back](Self::restore).
    pub fn checkout(&mut self, client_pubkey: &str) -> (r: Option<ClientSession>)
        requires
            old(self).wf(),
        ensures
            final(self).wf(),
            final(self)@ == (SessionsV {
                entries: without(old(self)@.entries, client_pubkey@),
                ..old(self)@
            }),
            match r {
                Some(s) => value_of(old(self)@.entries, client_pubkey@) == Some(s@),
                None => value_of(old(self)@.entries, client_pubkey@) is None,
            },
    {
        self.take(client_pubkey)
    }

    /// Puts back the state of a client that has been checked out, in front.
    pub fn restore(&mut self, client_pubkey: &str, session: ClientSession)
        requires
            old(self).wf(),
            !has_key(old(self)@.entries, client_pubkey@),
            old(self)@.entries.len() < old(self)@.capacity,
        ensures
            final(self).wf(),
            final(self)@ == (SessionsV {
                entries: seq![(client_pubkey@, session@)] + old(self)@.entries,
                ..old(self)@
            }),
    {
        let _ = self.put(client_pubkey.to_owned(), session);
    }

    /// Puts a client that is not there yet in front. Returned is who is gone.
    pub fn let_in(
        &mut self,
        client_pubkey: &str,
        is_encrypted: bool,
        event_routes: &ServerEventRouteStore,
        now: u64,
    ) -> (r: Option<String>)
        requires
            old(self).wf(),
        ensures
            final(self).wf(),
            (final(self)@, opt_text(r)) == old(self)@.with_new(
                client_pubkey@,
                is_encrypted,
                event_routes@,
                now,
            ),
    {
        let displaced = self.put(client_pubkey.to_owned(), ClientSession::new(is_encrypted, now));
        match displaced {
            Some((gone, session)) => {
                if same_text(gone.as_str(), client_pubkey) {
                    return None;
                }
                if event_routes.has_active_routes_for_client(gone.as_str()) {
                    return match self.put(gone, ClientSession::new(session.is_encrypted, now)) {
                        Some((other, _)) => Some(other),
                        None => None,
                    };
                }
                Some(gone)
            },
            None => None,
        }
    }

    /// Looks for a client, and lets it in where it is not there.
    pub fn get_or_create_session(
        &mut self,
        client_pubkey: &str,
        is_encrypted: bool,
        event_routes: &ServerEventRouteStore,
        now: u64,
    ) -> (r: Admitted)
        requires
            old(self).wf(),
        ensures
            final(self).wf(),
            (final(self)@, r.created, opt_text(r.evicted)) == old(self)@.admitted(
                client_pubkey@,
                is_encrypted,
                event_routes@,
                now,
            ),
    {
        proof {
            self.wf_facts();
            without_facts(self@.entries, client_pubkey@);
        }
        match self.take(client_pubkey) {
            Some(s) => {
                let mut session = s;
                session.is_encrypted = is_encrypted;
                let _ = self.put(client_pubkey.to_owned(), session);
                Admitted { created: false, evicted: None }
            },
            None => {
                let evicted = self.let_in(client_pubkey, is_encrypted, event_routes, now);
                Admitted { created: true, evicted }
            },
        }
    }

    /// What is known of a client.
    pub fn get_session(&self, client_pubkey: &str) -> (r: Option<SessionSnapshot>)
        requires
            self.wf(),
        ensures
            match r {
                Some(s) => value_of(self@.entries, client_pubkey@) matches Some(c) && s
                    == c.snapshot(),
                None => value_of(self@.entries, client_pubkey@) is None,
            },
    {
        proof {
            self.lookup_facts(client_pubkey@);
        }
        match self.sessions.peek(client_pubkey) {
            Some(s) => Some(snapshot_of(s)),
            None => None,
        }
    }

    proof fn lookup_facts(&self, key: Seq<char>)
        requires
            self.wf(),
        ensures
            has_key(self@.entries, key) == has_key(self.sessions@, key),
            value_of(self@.entries, key) == (match value_of(self.sessions@, key) {
                Some(s) => Some(s@),
                None => None,
            }),
    {
        self.sessions.wf_facts();
        if has_key(self.sessions@, key) {
            mapped_facts(
                self.sessions@,
                client_view(),
                self.sessions.capacity(),
                key,
                value_of(self.sessions@, key).unwrap(),
            );
        } else if has_key(self@.entries, key) {
            let i = crate::lru_cache::index_of_key(self@.entries, key);
            assert(self.sessions@[i].0 == key);
        }
    }

    /// Whether a client is there.
    pub fn contains(&self, client_pubkey: &str) -> (r: bool)
        requires
            self.wf(),
        ensures
            r == has_key(self@.entries, client_pubkey@),
    {
        proof {
            self.lookup_facts(client_pubkey@);
        }
        self.sessions.contains(client_pubkey)
    }

    /// Whether there is room for one more client.
    pub fn has_free_place(&self) -> (r: bool)
        requires
            self.wf(),
        ensures
            r == (self@.entries.len() < self@.capacity),
    {
        self.sessions.len() < self.sessions.limit()
    }

    /// Whether there is room for more than one client.
    pub fn has_several_places(&self) -> (r: bool)
        requires
            self.wf(),
        ensures
            r == (self@.capacity >= 2),
    {
        self.sessions.limit() >= 2
    }

    /// Notes that a client has opened its MCP session. Tells whether the client is there.
    pub fn mark_initialized(&mut self, client_pubkey: &str) -> (r: bool)
        requires
            old(self).wf(),
        ensures
            final(self).wf(),
            match value_of(old(self)@.entries, client_pubkey@) {
                Some(c) => r && final(self)@ == old(self)@.updated(
                    client_pubkey@,
                    ClientV { is_initialized: true, ..c },
                ),
                None => !r && final(self)@ == old(self)@,
            },
    {
        proof {
            self.wf_facts();
            without_facts(self@.entries, client_pubkey@);
        }
        match self.take(client_pubkey) {
            Some(s) => {
                let mut session = s;
                session.is_initialized = true;
                let _ = self.put(client_pubkey.to_owned(), session);
                true
            },
            None => false,
        }
    }

    /// Notes that the server's tags have been sent to a client. Tells whether the client is
    /// there.
    pub fn mark_common_tags_sent(&mut self, client_pubkey: &str) -> (r: bool)
        requires
            old(self).wf(),
        ensures
            final(self).wf(),
            match value_of(old(self)@.entries, client_pubkey@) {
                Some(c) => r && final(self)@ == old(self)@.updated(
                    client_pubkey@,
                    ClientV { has_sent_common_tags: true, ..c },
                ),
                None => !r && final(self)@ == old(self)@,
            },
    {
        proof {
            self.wf_facts();
            without_facts(self@.entries, client_pubkey@);
        }
        match self.take(client_pubkey) {
            Some(s) => {
                let mut session = s;
                session.has_sent_common_tags = true;
                let _ = self.put(client_pubkey.to_owned(), session);
                true
            },
            None => false,
        }
    }

    /// Takes a client out. Tells whether it was there.
    pub fn remove_session(&mut self, client_pubkey: &str) -> (r: bool)
        requires
            old(self).wf(),
        ensures
            final(self).wf(),
            final(self)@ == (SessionsV {
                entries: without(old(self)@.entries, client_pubkey@),
                ..old(self)@
            }),
            r == has_key(old(self)@.entries, client_pubkey@),
    {
        self.take(client_pubkey).is_some()
    }

    /// Takes every client out.
    pub fn clear(&mut self)
        requires
            old(self).wf(),
        ensures
            final(self).wf(),
            final(self)@ == (SessionsV { entries: Seq::empty(), ..old(self)@ }),
    {
        self.sessions.clear();
        assert(self@.entries =~= Seq::<(Seq<char>, ClientV)>::empty());
    }

    /// Forgets the clients that have been silent for more than `timeout` at `now`. Returned are
    /// how many they were and the keys of what was pending for them.
    pub fn expire(&mut self, now: u64, timeout: u64) -> (r: (usize, Vec<String>))
        requires
            old(self).wf(),
        ensures
            final(self).wf(),
            final(self)@ == old(self)@.without_silent(now, timeout),
            r.0 == old(self)@.entries.len() - final(self)@.entries.len(),
            texts(r.1@).to_set() == old(self)@.stale_ids(now, timeout),
    {
        let ghost start = self@;
        proof {
            self.wf_facts();
        }
        let keys = self.sessions.keys();
        let mut stale: Vec<String> = Vec::new();
        let mut cleaned: usize = 0;
        let mut i: usize = 0;
        let ghost mut gone = Set::<Seq<char>>::empty();
        proof {
            retain_all(start.entries, not_gone(gone));
        }
        assert(texts(stale@).to_set() =~= Set::<Seq<char>>::empty());
        while i < keys.len()
            invariant
                i <= keys@.len(),
                keys@.len() == start.entries.len(),
                self.wf(),
                start.bounded(),
                self@.capacity == start.capacity,
                self@.entries == retain(start.entries, not_gone(gone)),
                cleaned == start.entries.len() - self@.entries.len(),
                cleaned <= i,
                forall|j: int|
                    0 <= j < keys@.len() ==> (#[trigger] keys@[j])@ == start.entries[j].0,
                forall|k: Seq<char>| #[trigger]
                    gone.contains(k) <==> exists|j: int|
                        0 <= j < i && (#[trigger] start.entries[j]).0 == k && is_silent(
                            start.entries[j].1,
                            now,
                            timeout,
                        ),
                forall|id: Seq<char>| #[trigger]
                    texts(stale@).contains(id) <==> exists|j: int|
                        0 <= j < i && is_silent((#[trigger] start.entries[j]).1, now, timeout)
                            && pends(start.entries[j].1, id),
            decreases keys@.len() - i,
        {
            let ghost key = start.entries[i as int].0;
            let ghost c = start.entries[i as int].1;
            let ghost before = texts(stale@);
            let ghost at = self@.entries;
            proof {
                assert(keys@[i as int]@ == key);
                entry_found(start.entries, i as int);
                retain_lookup(start.entries, not_gone(gone), key);
                if gone.contains(key) {
                    let j = choose|j: int|
                        0 <= j < i && (#[trigger] start.entries[j]).0 == key && is_silent(
                            start.entries[j].1,
                            now,
                            timeout,
                        );
                    assert(false);
                }
                retain_facts(start.entries, not_gone(gone));
                without_facts(at, key);
            }
            let silent = match self.last_activity(keys[i].as_str()) {
                Some(at) => age_of(now, at) > timeout,
                None => false,
            };
            if silent {
                if let Some(session) = self.take(keys[i].as_str()) {
                    let mut ids = session.pending_requests.keys();
                    let mut more = session.event_to_progress_token.keys();
                    let ghost a = texts(ids@);
                    let ghost b = texts(more@);
                    stale.append(&mut ids);
                    stale.append(&mut more);
                    cleaned = cleaned + 1;
                    proof {
                        assert(texts(stale@) =~= before + a + b);
                        assert forall|id: Seq<char>| (before + a + b).contains(id) == (
                        before.contains(id) || pends(c, id)) by {
                            assert(a.to_set().contains(id) == c.pending_requests.contains_key(id));
                            assert(b.to_set().contains(id)
                                == c.event_to_progress_token.contains_key(id));
                            joined_contains(before, a, b, id);
                        }
                        retain_without(
                            start.entries,
                            not_gone(gone),
                            not_gone(gone.insert(key)),
                            key,
                        );
                        gone = gone.insert(key);
                    }
                }
            }
            i = i + 1;
            proof {
                assert(silent == is_silent(c, now, timeout));
                assert forall|id: Seq<char>| #[trigger] texts(stale@).contains(id) == exists|j: int|
                    0 <= j < i && is_silent((#[trigger] start.entries[j]).1, now, timeout) && pends(
                        start.entries[j].1,
                        id,
                    ) by {
                    assert(texts(stale@).contains(id) == (before.contains(id) || (silent && pends(
                        c,
                        id,
                    ))));
                    if before.contains(id) {
                        let j = choose|j: int|
                            0 <= j < i - 1 && is_silent(
                                (#[trigger] start.entries[j]).1,
                                now,
                                timeout,
                            ) && pends(start.entries[j].1, id);
                        assert(is_silent(start.entries[j].1, now, timeout));
                    }
                    if silent && pends(c, id) {
                        assert(is_silent(start.entries[i - 1].1, now, timeout));
                    }
                }
                assert forall|k: Seq<char>| #[trigger] gone.contains(k) implies exists|j: int|
                    0 <= j < i && (#[trigger] start.entries[j]).0 == k && is_silent(
                        start.entries[j].1,
                        now,
                        timeout,
                    ) by {
                    if k == key {
                        assert(start.entries[i - 1].0 == k);
                    }
                }
            }
        }
        proof {
            assert forall|j: int| 0 <= j < start.entries.len() implies not_gone(gone)(
                #[trigger] start.entries[j],
            ) == not_silent(now, timeout)(start.entries[j]) by {
                if gone.contains(start.entries[j].0) {
                    let k = choose|k: int|
                        0 <= k < i && (#[trigger] start.entries[k]).0 == start.entries[j].0
                            && is_silent(start.entries[k].1, now, timeout);
                    assert(k == j);
                }
            }
            retain_agrees(start.entries, not_gone(gone), not_silent(now, timeout));
            assert(texts(stale@).to_set() =~= start.stale_ids(now, timeout));
        }
        (cleaned, stale)
    }

    /// The clients that have opened their MCP session, the most recently heard of first.
    pub fn initialized_clients(&self) -> (r: Vec<String>)
        requires
            self.wf(),
        ensures
            texts(r@) == initialized_keys(self@.entries),
    {
        let all = self.get_all_sessions();
        let mut out: Vec<String> = Vec::new();
        let mut i: usize = 0;
        assert(texts(out@) =~= initialized_keys(self@.entries.take(0)));
        while i < all.len()
            invariant
                i <= all@.len(),
                all@.len() == self@.entries.len(),
                forall|j: int|
                    0 <= j < all@.len() ==> (#[trigger] all@[j]).0@ == self@.entries[j].0
                        && all@[j].1 == self@.entries[j].1.snapshot(),
                texts(out@) == initialized_keys(self@.entries.take(i as int)),
            decreases all@.len() - i,
        {
            let ghost before = texts(out@);
            proof {
                assert(self@.entries.take(i + 1).drop_last() =~= self@.entries.take(i as int));
                assert(self@.entries.take(i + 1).last() == self@.entries[i as int]);
                assert(all@[i as int].0@ == self@.entries[i as int].0);
            }
            if all[i].1.is_initialized {
                out.push(all[i].0.clone());
                assert(texts(out@) =~= before.push(self@.entries[i as int].0));
            }
            i = i + 1;
        }
        assert(self@.entries.take(i as int) =~= self@.entries);
        out
    }

    /// Number of clients.
    pub fn session_count(&self) -> (r: usize)
        ensures
            r == self@.entries.len(),
    {
        self.sessions.len()
    }

    /// The public keys of all clients, the most recently heard of first.
    pub fn client_keys(&self) -> (r: Vec<String>)
        ensures
            r@.len() == self@.entries.len(),
            forall|i: int| 0 <= i < r@.len() ==> (#[trigger] r@[i])@ == self@.entries[i].0,
    {
        self.sessions.keys()
    }

    /// The time of a client's last message.
    pub fn last_activity(&self, client_pubkey: &str) -> (r: Option<u64>)
        requires
            self.wf(),
        ensures
            r == (match value_of(self@.entries, client_pubkey@) {
                Some(c) => Some(c.last_activity),
                None => None,
            }),
    {
        proof {
            self.lookup_facts(client_pubkey@);
        }
        match self.sessions.peek(client_pubkey) {
            Some(s) => Some(s.last_activity),
            None => None,
        }
    }

    /// What is known of every client, the most recently heard of first.
    pub fn get_all_sessions(&self) -> (r: Vec<(String, SessionSnapshot)>)
        requires
            self.wf(),
        ensures
            r@.len() == self@.entries.len(),
            forall|i: int|
                0 <= i < r@.len() ==> (#[trigger] r@[i]).0@ == self@.entries[i].0 && r@[i].1
                    == self@.entries[i].1.snapshot(),
    {
        let keys = self.sessions.keys();
        let mut out: Vec<(String, SessionSnapshot)> = Vec::new();
        let mut i: usize = 0;
        proof {
            self.wf_facts();
        }
        while i < keys.len()
            invariant
                i <= keys@.len(),
                keys@.len() == self@.entries.len(),
                self.wf(),
                self@.bounded(),
                out@.len() == i,
                forall|j: int| 0 <= j < keys@.len() ==> (#[trigger] keys@[j])@ == self@.entries[j].0,
                forall|j: int|
                    0 <= j < out@.len() ==> (#[trigger] out@[j]).0@ == self@.entries[j].0
                        && out@[j].1 == self@.entries[j].1.snapshot(),
            decreases keys@.len() - i,
        {
            proof {
                entry_found(self@.entries, i as int);
                assert(keys@[i as int]@ == self@.entries[i as int].0);
            }
            match self.get_session(keys[i].as_str()) {
                Some(s) => {
                    out.push((keys[i].clone(), s));
                },
                None => {
                    assert(false);
                },
            }
            i = i + 1;
        }
        out
    }
}

/// There are never more clients than the capacity, and a client that has just been let in is
/// there, in front unless a busy client came back for it.
pub proof fn admission_keeps_bounds(
    s: SessionsV,
    client: Seq<char>,
    is_encrypted: bool,
    routes: RouteStoreV,
    now: u64,
)
    requires
        s.bounded(),
    ensures
        s.admitted(client, is_encrypted, routes, now).0.bounded(),
        s.admitted(client, is_encrypted, routes, now).0.capacity == s.capacity,
        s.capacity >= 2 ==> (value_of(
            s.admitted(client, is_encrypted, routes, now).0.entries,
            client,
        ) matches Some(c) && c.is_encrypted == is_encrypted),
{
    match value_of(s.entries, client) {
        Some(session) => {
            without_facts(s.entries, client);
            crate::recency_map::front_facts(
                without(s.entries, client),
                client,
                ClientV { is_encrypted, ..session },
            );
        },
        None => {
            let fresh = ClientV::fresh(is_encrypted, now);
            pushed_facts(s.entries, s.capacity, client, fresh);
            let entries = pushed(s.entries, s.capacity, client, fresh);
            if let Some((gone, session)) = displaced(s.entries, s.capacity, client) {
                if gone != client && is_busy(routes, gone) {
                    pushed_facts(
                        entries,
                        s.capacity,
                        gone,
                        ClientV::fresh(session.is_encrypted, now),
                    );
                    if s.capacity >= 2 && entries.len() == s.capacity {
                        assert(entries[0].0 == client);
                        assert(entries[entries.len() - 1].0 != entries[0].0);
                    }
                }
            }
        },
    }
}

/// A busy client is not lost to a new one: while it is busy, the one that would have to leave is
/// still there afterwards, with a clean session that keeps its encryption. In its place the client
/// that was silent the longest but for it is gone, and is reported so; with room for one client
/// only, that is the new client.
pub proof fn busy_client_is_kept(
    s: SessionsV,
    client: Seq<char>,
    is_encrypted: bool,
    routes: RouteStoreV,
    now: u64,
)
    requires
        s.bounded(),
        !has_key(s.entries, client),
        s.entries.len() == s.capacity,
        is_busy(routes, s.entries.last().0),
    ensures
        ({
            let (after, created, evicted) = s.admitted(client, is_encrypted, routes, now);
            &&& created
            &&& evicted == Some(
                if s.capacity >= 2 {
                    s.entries[s.entries.len() - 2].0
                } else {
                    client
                },
            )
            &&& !has_key(after.entries, evicted.unwrap())
            &&& value_of(after.entries, s.entries.last().0) == Some(
                ClientV::fresh(s.entries.last().1.is_encrypted, now),
            )
        }),
{
    let fresh = ClientV::fresh(is_encrypted, now);
    pushed_facts(s.entries, s.capacity, client, fresh);
    let entries = pushed(s.entries, s.capacity, client, fresh);
    let last = s.entries.last();
    assert(s.entries[s.entries.len() - 1].0 == last.0);
    let clean = ClientV::fresh(last.1.is_encrypted, now);
    pushed_facts(entries, s.capacity, last.0, clean);
    assert(!has_key(entries, last.0)) by {
        assert(value_of(entries, last.0) is None);
    }
    let other = entries.last().0;
    if s.capacity >= 2 {
        assert(entries[entries.len() - 1] == s.entries[s.entries.len() - 2]);
    } else {
        assert(entries[0].0 == client);
    }
    assert(entries[entries.len() - 1].0 == other);
    let after = pushed(entries, s.capacity, last.0, clean);
    assert(other != last.0);
    assert(value_of(after, other) is None);
}

/// Whoever is reported as gone was there before or is the new client, is not there afterwards,
/// and nobody else is lost.
pub proof fn only_the_reported_client_is_gone(
    s: SessionsV,
    client: Seq<char>,
    is_encrypted: bool,
    routes: RouteStoreV,
    now: u64,
    other: Seq<char>,
)
    requires
        s.bounded(),
        !has_key(s.entries, client),
    ensures
        ({
            let (after, evicted) = s.with_new(client, is_encrypted, routes, now);
            has_key(after.entries, other) <==> (has_key(s.entries, other) || other == client)
                && evicted != Some(other)
        }),
{
    let fresh = ClientV::fresh(is_encrypted, now);
    pushed_facts(s.entries, s.capacity, client, fresh);
    let entries = pushed(s.entries, s.capacity, client, fresh);
    assert(has_key(entries, other) == (value_of(entries, other) is Some));
    assert(has_key(s.entries, other) == (value_of(s.entries, other) is Some));
    if let Some((gone, session)) = displaced(s.entries, s.capacity, client) {
        assert(s.entries[s.entries.len() - 1].0 == gone);
        assert(has_key(s.entries, gone));
        assert(value_of(entries, gone) is None);
        if is_busy(routes, gone) {
            let clean = ClientV::fresh(session.is_encrypted, now);
            pushed_facts(entries, s.capacity, gone, clean);
            let after = pushed(entries, s.capacity, gone, clean);
            assert(has_key(after, other) == (value_of(after, other) is Some));
            let last = entries.last().0;
            assert(entries[entries.len() - 1].0 == last);
            assert(has_key(entries, last));
        }
    }
}

/// Whoever is let in starts out as a stranger: with a session that is not initialized, has sent
/// nothing, knows nothing of what the client supports, and is as encrypted and as recent as the
/// event that opened it.
pub proof fn new_client_is_fresh(
    s: SessionsV,
    client: Seq<char>,
    is_encrypted: bool,
    routes: RouteStoreV,
    now: u64,
)
    requires
        s.bounded(),
        !has_key(s.entries, client),
    ensures
        ({
            let (after, evicted) = s.with_new(client, is_encrypted, routes, now);
            evicted != Some(client) ==> (value_of(after.entries, client) matches Some(c)
                && c.is_encrypted == is_encrypted && c.last_activity == now && !c.is_initialized
                && !c.has_sent_common_tags && !c.supports_ephemeral_gift_wrap
                && !c.supports_encryption && !c.supports_ephemeral_encryption
                && !c.supports_oversized_transfer && !c.supports_open_stream
                && c.pending_requests == Map::<Seq<char>, JsonV>::empty()
                && c.event_to_progress_token == Map::<Seq<char>, Seq<char>>::empty())
        }),
{
    let fresh = ClientV::fresh(is_encrypted, now);
    pushed_facts(s.entries, s.capacity, client, fresh);
    let entries = pushed(s.entries, s.capacity, client, fresh);
    if let Some((gone, session)) = displaced(s.entries, s.capacity, client) {
        pushed_facts(
            entries,
            s.capacity,
            gone,
            ClientV::fresh(session.is_encrypted, now),
        );
    }
}

/// The client that has to leave for a new one is the least recently used one, unless a request of
/// it is being worked on; nobody has to leave while there is room.
pub proof fn least_recent_client_leaves(
    s: SessionsV,
    client: Seq<char>,
    is_encrypted: bool,
    routes: RouteStoreV,
    now: u64,
)
    requires
        s.bounded(),
        !has_key(s.entries, client),
    ensures
        ({
            let (after, evicted) = s.with_new(client, is_encrypted, routes, now);
            &&& s.entries.len() < s.capacity ==> evicted is None
            &&& s.entries.len() == s.capacity && !is_busy(routes, s.entries.last().0) ==> evicted
                == Some(s.entries.last().0)
            &&& evicted != Some(client) && !(s.entries.len() == s.capacity && is_busy(
                routes,
                s.entries.last().0,
            )) ==> after.entries[0].0 == client
            &&& after.capacity == s.capacity
        }),
{
    if s.entries.len() == s.capacity {
        assert(s.entries[s.entries.len() - 1] == s.entries.last());
    }
}

/// What is noted of a client makes it the most recently used one, and changes nobody else.
pub proof fn noted_client_is_most_recent(
    s: SessionsV,
    client: Seq<char>,
    c: ClientV,
    other: Seq<char>,
)
    requires
        s.bounded(),
        has_key(s.entries, client),
    ensures
        s.updated(client, c).entries[0] == (client, c),
        s.updated(client, c).entries.len() == s.entries.len(),
        value_of(s.updated(client, c).entries, client) == Some(c),
        other != client ==> value_of(s.updated(client, c).entries, other) == value_of(
            s.entries,
            other,
        ),
{
    without_facts(s.entries, client);
    front_facts(without(s.entries, client), client, c);
}

/// The requests that are forgotten with the clients that have been silent for too long are those
/// of these clients, and no others.
pub proof fn silent_clients_requests_are_stale(
    s: SessionsV,
    now: u64,
    timeout: u64,
    client: Seq<char>,
    c: ClientV,
    id: Seq<char>,
)
    requires
        s.bounded(),
        value_of(s.entries, client) == Some(c),
    ensures
        now > c.last_activity + timeout && (c.pending_requests.contains_key(id)
            || c.event_to_progress_token.contains_key(id)) ==> s.stale_ids(now, timeout).contains(
            id,
        ),
        s.stale_ids(now, timeout).contains(id) ==> exists|i: int|
            0 <= i < s.entries.len() && now > (#[trigger] s.entries[i]).1.last_activity + timeout
                && (s.entries[i].1.pending_requests.contains_key(id)
                || s.entries[i].1.event_to_progress_token.contains_key(id)),
{
    let i = crate::lru_cache::index_of_key(s.entries, client);
    assert(s.entries[i].0 == client && s.entries[i].1 == c);
    if s.stale_ids(now, timeout).contains(id) {
        let j = choose|j: int|
            0 <= j < s.entries.len() && is_silent((#[trigger] s.entries[j]).1, now, timeout)
                && pends(s.entries[j].1, id);
        assert(now > s.entries[j].1.last_activity + timeout);
    }
}

pub(crate) proof fn initialized_keys_facts(entries: Seq<(Seq<char>, ClientV)>)
    requires
        keys_distinct(entries),
    ensures
        initialized_keys(entries).no_duplicates(),
        forall|k: Seq<char>| #[trigger]
            initialized_keys(entries).contains(k) <==> exists|i: int|
                0 <= i < entries.len() && (#[trigger] entries[i]).0 == k
                    && entries[i].1.is_initialized,
    decreases entries.len(),
{
    if entries.len() > 0 {
        let init = entries.drop_last();
        let rest = initialized_keys(init);
        let all = initialized_keys(entries);
        initialized_keys_facts(init);
        assert(entries[entries.len() - 1] == entries.last());
        assert forall|k: Seq<char>| #[trigger] all.contains(k) <==> exists|i: int|
            0 <= i < entries.len() && (#[trigger] entries[i]).0 == k && entries[i].1.is_initialized by {
            if all.contains(k) {
                let j = all.index_of(k);
                if j < rest.len() {
                    assert(rest[j] == k);
                    assert(rest.contains(k));
                    let i = choose|i: int|
                        0 <= i < init.len() && (#[trigger] init[i]).0 == k
                            && init[i].1.is_initialized;
                    assert(entries[i] == init[i]);
                } else {
                    assert(entries[entries.len() - 1].0 == k);
                }
            }
            if exists|i: int|
                0 <= i < entries.len() && (#[trigger] entries[i]).0 == k
                    && entries[i].1.is_initialized {
                let i = choose|i: int|
                    0 <= i < entries.len() && (#[trigger] entries[i]).0 == k
                        && entries[i].1.is_initialized;
                if i < init.len() {
                    assert(init[i] == entries[i]);
                    assert(rest.contains(k));
                    assert(all[rest.index_of(k)] == k);
                } else {
                    assert(all[all.len() - 1] == k);
                }
            }
        }
        if entries.last().1.is_initialized {
            if rest.contains(entries.last().0) {
                let i = choose|i: int|
                    0 <= i < init.len() && (#[trigger] init[i]).0 == entries.last().0
                        && init[i].1.is_initialized;
                assert(entries[i].0 == entries[entries.len() - 1].0);
            }
        }
    }
}

/// Where there is no room for a client, letting it in would put it out again.
pub proof fn without_room_nobody_is_let_in(
    s: SessionsV,
    client: Seq<char>,
    is_encrypted: bool,
    routes: RouteStoreV,
    now: u64,
)
    requires
        s.bounded(),
        !has_key(s.entries, client),
    ensures
        super::transport::has_room(s, routes, client) <==> s.with_new(
            client,
            is_encrypted,
            routes,
            now,
        ).1 != Some(client),
{
    let fresh = ClientV::fresh(is_encrypted, now);
    pushed_facts(s.entries, s.capacity, client, fresh);
    only_the_reported_client_is_gone(s, client, is_encrypted, routes, now, client);
    if s.entries.len() == s.capacity {
        assert(s.entries[s.entries.len() - 1] == s.entries.last());
        if is_busy(routes, s.entries.last().0) {
            busy_client_is_kept(s, client, is_encrypted, routes, now);
            if s.capacity >= 2 {
                assert(s.entries[s.entries.len() - 2].0 != client);
            }
        }
    }
}

} // verus!
