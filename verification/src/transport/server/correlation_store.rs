//! Routes of the requests that a server works on, by the id of the event that carried them.
//!
//! Two indexes lead to a route: from its progress token, and from its client.

use vstd::prelude::*;

use crate::constants::DEFAULT_LRU_SIZE;
use crate::json::{Json, JsonV};
use crate::lru_cache::{displaced, has_key, index_of_key, pushed, value_of, without};
use crate::recency_map::{
    entry_found, keys_distinct, mapped, mapped_facts, pushed_facts, retain, retain_agrees,
    retain_all, retain_lookup, retain_without, without_facts, RecencyMap,
};
use crate::text::{clone_opt, opt_text, same_text, texts};
use crate::text_map::TextMap;
use crate::text_set::TextSet;
use crate::transport::client::correlation_store::{age, age_of};

verus! {

/// Where the response to a request goes.
#[derive(Debug, PartialEq, Eq)]
pub struct RouteEntry {
    /// The client's public key.
    pub client_pubkey: String,
    /// The id that the client sent the request under.
    pub original_request_id: Json,
    /// The request's progress token.
    pub progress_token: Option<String>,
    /// Kind of the gift wrap that carried the request.
    pub wrap_kind: Option<u16>,
    /// When the route was registered.
    pub registered_at: u64,
}

/// Model of [`RouteEntry`].
pub struct RouteV {
    pub client_pubkey: Seq<char>,
    pub original_request_id: JsonV,
    pub progress_token: Option<Seq<char>>,
    pub wrap_kind: Option<u16>,
    pub registered_at: u64,
}

impl View for RouteEntry {
    type V = RouteV;

    open spec fn view(&self) -> RouteV {
        RouteV {
            client_pubkey: self.client_pubkey@,
            original_request_id: self.original_request_id@,
            progress_token: opt_text(self.progress_token),
            wrap_kind: self.wrap_kind,
            registered_at: self.registered_at,
        }
    }
}

/// The model of a route.
pub open spec fn route_view() -> spec_fn(RouteEntry) -> RouteV {
    |r: RouteEntry| r@
}

/// The model of an optional route.
pub open spec fn opt_route(r: Option<RouteEntry>) -> Option<RouteV> {
    match r {
        Some(x) => Some(x@),
        None => None,
    }
}

impl RouteEntry {
    /// A copy of the entry.
    pub fn duplicate(&self) -> (r: RouteEntry)
        ensures
            r@ == self@,
    {
        RouteEntry {
            client_pubkey: self.client_pubkey.clone(),
            original_request_id: self.original_request_id.duplicate(),
            progress_token: clone_opt(&self.progress_token),
            wrap_kind: self.wrap_kind,
            registered_at: self.registered_at,
        }
    }
}

/// Model of [`ServerEventRouteStore`].
pub struct RouteStoreV {
    /// The routes by event id, the most recently registered first.
    pub routes: Seq<(Seq<char>, RouteV)>,
    /// The most routes that are kept.
    pub capacity: nat,
    /// The event id for each progress token.
    pub tokens: Map<Seq<char>, Seq<char>>,
    /// The event ids of each client.
    pub clients: Map<Seq<char>, Set<Seq<char>>>,
}

/// The client index without an event id. A client without any is dropped.
pub open spec fn client_forgets(
    clients: Map<Seq<char>, Set<Seq<char>>>,
    client: Seq<char>,
    event_id: Seq<char>,
) -> Map<Seq<char>, Set<Seq<char>>> {
    if !clients.contains_key(client) {
        clients
    } else if clients[client].remove(event_id).len() == 0 {
        clients.remove(client)
    } else {
        clients.insert(client, clients[client].remove(event_id))
    }
}

/// The client index with one more event id.
pub open spec fn client_learns(
    clients: Map<Seq<char>, Set<Seq<char>>>,
    client: Seq<char>,
    event_id: Seq<char>,
) -> Map<Seq<char>, Set<Seq<char>>> {
    clients.insert(
        client,
        if clients.contains_key(client) {
            clients[client].insert(event_id)
        } else {
            Set::empty().insert(event_id)
        },
    )
}

/// The token index without the token of a route.
pub open spec fn token_forgotten(
    tokens: Map<Seq<char>, Seq<char>>,
    token: Option<Seq<char>>,
) -> Map<Seq<char>, Seq<char>> {
    match token {
        Some(t) => tokens.remove(t),
        None => tokens,
    }
}

/// The token index with the token of a route.
pub open spec fn token_learned(
    tokens: Map<Seq<char>, Seq<char>>,
    token: Option<Seq<char>>,
    event_id: Seq<char>,
) -> Map<Seq<char>, Seq<char>> {
    match token {
        Some(t) => tokens.insert(t, event_id),
        None => tokens,
    }
}

impl RouteStoreV {
    /// The indexes without a route that is gone.
    pub open spec fn unindexed(self, event_id: Seq<char>, route: RouteV) -> RouteStoreV {
        RouteStoreV {
            tokens: token_forgotten(self.tokens, route.progress_token),
            clients: client_forgets(self.clients, route.client_pubkey, event_id),
            ..self
        }
    }

    /// The store with one more route. A route that has to leave for it leaves the indexes too.
    pub open spec fn registered(self, event_id: Seq<char>, route: RouteV) -> RouteStoreV {
        let indexed = RouteStoreV {
            tokens: token_learned(self.tokens, route.progress_token, event_id),
            clients: client_learns(self.clients, route.client_pubkey, event_id),
            routes: pushed(self.routes, self.capacity, event_id, route),
            ..self
        };
        match displaced(self.routes, self.capacity, event_id) {
            Some((gone, old_route)) => if gone != event_id {
                indexed.unindexed(gone, old_route)
            } else {
                indexed
            },
            None => indexed,
        }
    }

    /// The store without a route.
    pub open spec fn popped(self, event_id: Seq<char>) -> RouteStoreV {
        match value_of(self.routes, event_id) {
            Some(route) => RouteStoreV {
                routes: without(self.routes, event_id),
                ..self
            }.unindexed(event_id, route),
            None => self,
        }
    }

    /// The store without several routes.
    pub open spec fn popped_all(self, event_ids: Seq<Seq<char>>) -> RouteStoreV
        decreases event_ids.len(),
    {
        if event_ids.len() == 0 {
            self
        } else {
            self.popped_all(event_ids.drop_last()).popped(event_ids.last())
        }
    }

    /// Whether each route is found through its client.
    pub open spec fn clients_know_routes(self) -> bool {
        forall|i: int|
            0 <= i < self.routes.len() ==> self.clients.contains_key(
                (#[trigger] self.routes[i]).1.client_pubkey,
            ) && self.clients[self.routes[i].1.client_pubkey].contains(self.routes[i].0)
    }

    /// Whether the index of each client is finite and not empty.
    pub open spec fn clients_finite(self) -> bool {
        forall|c: Seq<char>| #[trigger]
            self.clients.contains_key(c) ==> self.clients[c].finite() && self.clients[c].len() > 0
    }

    /// Whether the routes have distinct event ids and are within the capacity.
    pub open spec fn bounded(self) -> bool {
        &&& keys_distinct(self.routes)
        &&& self.routes.len() <= self.capacity
        &&& 1 <= self.capacity
    }

    /// The event ids of the routes that are `timeout` or more old at `now`, in order.
    pub open spec fn stale(self, now: u64, timeout: u64) -> Seq<Seq<char>> {
        stale_keys(self.routes, now, timeout)
    }
}

/// The keys of the entries that are `timeout` or more old at `now`, in order.
pub open spec fn stale_keys(
    routes: Seq<(Seq<char>, RouteV)>,
    now: u64,
    timeout: u64,
) -> Seq<Seq<char>>
    decreases routes.len(),
{
    if routes.len() == 0 {
        Seq::empty()
    } else {
        let rest = stale_keys(routes.drop_last(), now, timeout);
        if age(now, routes.last().1.registered_at) >= timeout {
            rest.push(routes.last().0)
        } else {
            rest
        }
    }
}

/// The routes of a server. The oldest one is forgotten when there are too many.
pub struct ServerEventRouteStore {
    routes: RecencyMap<RouteEntry>,
    progress_token_to_event: TextMap<String>,
    client_event_ids: TextMap<TextSet>,
}

/// The characters of each value.
pub open spec fn text_values(m: Map<Seq<char>, String>) -> Map<Seq<char>, Seq<char>> {
    Map::new(|k: Seq<char>| m.contains_key(k), |k: Seq<char>| m[k]@)
}

/// The members of each set.
pub open spec fn set_values(m: Map<Seq<char>, TextSet>) -> Map<Seq<char>, Set<Seq<char>>> {
    Map::new(|k: Seq<char>| m.contains_key(k), |k: Seq<char>| m[k]@)
}

impl View for ServerEventRouteStore {
    type V = RouteStoreV;

    closed spec fn view(&self) -> RouteStoreV {
        RouteStoreV {
            routes: mapped(self.routes@, route_view()),
            capacity: self.routes.capacity(),
            tokens: text_values(self.progress_token_to_event@),
            clients: set_values(self.client_event_ids@),
        }
    }
}

impl ServerEventRouteStore {
    /// Whether the store is well formed.
    pub closed spec fn wf(&self) -> bool {
        self.routes.wf()
    }

    /// What well-formedness means for the routes.
    pub proof fn wf_facts(&self)
        requires
            self.wf(),
        ensures
            self@.bounded(),
    {
        self.routes.wf_facts();
        assert forall|i: int, j: int|
            0 <= i < self@.routes.len() && 0 <= j < self@.routes.len() && i != j implies (
        #[trigger] self@.routes[i]).0 != (#[trigger] self@.routes[j]).0 by {
            assert(self.routes@[i].0 != self.routes@[j].0);
        }
    }

    proof fn lookup_facts(&self, key: Seq<char>)
        requires
            self.wf(),
        ensures
            has_key(self@.routes, key) == has_key(self.routes@, key),
            value_of(self@.routes, key) == opt_route(value_of(self.routes@, key)),
            without(self@.routes, key) == mapped(without(self.routes@, key), route_view()),
    {
        self.routes.wf_facts();
        if has_key(self.routes@, key) {
            mapped_facts(
                self.routes@,
                route_view(),
                self.routes.capacity(),
                key,
                value_of(self.routes@, key).unwrap(),
            );
        } else if has_key(self@.routes, key) {
            let i = crate::lru_cache::index_of_key(self@.routes, key);
            assert(self.routes@[i].0 == key);
        }
    }

    /// A store of the default capacity.
    pub fn new() -> (r: Self)
        ensures
            r.wf(),
            r@ == (RouteStoreV {
                routes: Seq::empty(),
                capacity: DEFAULT_LRU_SIZE as nat,
                tokens: Map::empty(),
                clients: Map::empty(),
            }),
    {
        ServerEventRouteStore::with_max_routes(DEFAULT_LRU_SIZE)
    }

    /// A store of the given capacity; `0` counts as `1`.
    pub fn with_max_routes(max_routes: usize) -> (r: Self)
        requires
            max_routes <= usize::MAX / 128,
        ensures
            r.wf(),
            r@ == (RouteStoreV {
                routes: Seq::empty(),
                capacity: if max_routes >= 1 {
                    max_routes as nat
                } else {
                    1
                },
                tokens: Map::empty(),
                clients: Map::empty(),
            }),
    {
        let r = ServerEventRouteStore {
            routes: RecencyMap::with_capacity(max_routes),
            progress_token_to_event: TextMap::new(),
            client_event_ids: TextMap::new(),
        };
        assert(r@.routes =~= Seq::<(Seq<char>, RouteV)>::empty());
        assert(r@.tokens =~= Map::<Seq<char>, Seq<char>>::empty());
        assert(r@.clients =~= Map::<Seq<char>, Set<Seq<char>>>::empty());
        r
    }

    /// Takes a route that is gone out of the indexes.
    fn cleanup_indexes(&mut self, event_id: &str, route: &RouteEntry)
        requires
            old(self).wf(),
        ensures
            final(self).wf(),
            final(self)@ == old(self)@.unindexed(event_id@, route@),
    {
        let ghost before = self@;
        if let Some(token) = &route.progress_token {
            let _ = self.progress_token_to_event.remove(token.as_str());
        }
        assert(self@.tokens =~= token_forgotten(before.tokens, route@.progress_token));
        match self.client_event_ids.remove(route.client_pubkey.as_str()) {
            Some(s) => {
                let ghost c = route.client_pubkey@;
                assert(s@ == before.clients[c]);
                let mut set = s;
                set.remove(event_id);
                if set.len() > 0 {
                    let _ = self.client_event_ids.insert(route.client_pubkey.clone(), set);
                    assert(self@.clients =~= before.clients.insert(c, set@));
                } else {
                    assert(self@.clients =~= before.clients.remove(c));
                }
            },
            None => {
                assert(self@.clients =~= before.clients);
            },
        }
    }

    /// Registers a route.
    pub fn register(
        &mut self,
        event_id: String,
        client_pubkey: String,
        original_request_id: Json,
        progress_token: Option<String>,
        now: u64,
    )
        requires
            old(self).wf(),
        ensures
            final(self).wf(),
            final(self)@ == old(self)@.registered(
                event_id@,
                (RouteV {
                    client_pubkey: client_pubkey@,
                    original_request_id: original_request_id@,
                    progress_token: opt_text(progress_token),
                    wrap_kind: None,
                    registered_at: now,
                }),
            ),
    {
        let ghost before = self@;
        let mut set = match self.client_event_ids.remove(client_pubkey.as_str()) {
            Some(s) => s,
            None => TextSet::new(),
        };
        set.insert(event_id.clone());
        let _ = self.client_event_ids.insert(client_pubkey.clone(), set);
        assert(self@.clients =~= client_learns(before.clients, client_pubkey@, event_id@));
        if let Some(token) = &progress_token {
            let _ = self.progress_token_to_event.insert(token.clone(), event_id.clone());
        }
        assert(self@.tokens =~= token_learned(before.tokens, opt_text(progress_token), event_id@));
        let route = RouteEntry {
            client_pubkey,
            original_request_id,
            progress_token,
            wrap_kind: None,
            registered_at: now,
        };
        let name = event_id.clone();
        proof {
            self.routes.wf_facts();
            mapped_facts(
                self.routes@,
                route_view(),
                self.routes.capacity(),
                event_id@,
                route,
            );
        }
        let evicted = self.routes.push(event_id, route);
        if let Some((gone, old_route)) = evicted {
            if !same_text(gone.as_str(), name.as_str()) {
                self.cleanup_indexes(gone.as_str(), &old_route);
            }
        }
    }

    /// The client of the route `event_id`.
    pub fn get(&self, event_id: &str) -> (r: Option<String>)
        requires
            self.wf(),
        ensures
            match r {
                Some(c) => value_of(self@.routes, event_id@) matches Some(e) && e.client_pubkey
                    == c@,
                None => value_of(self@.routes, event_id@) is None,
            },
    {
        proof {
            self.lookup_facts(event_id@);
        }
        match self.routes.peek(event_id) {
            Some(route) => Some(route.client_pubkey.clone()),
            None => None,
        }
    }

    /// The route `event_id`.
    pub fn get_route(&self, event_id: &str) -> (r: Option<RouteEntry>)
        requires
            self.wf(),
        ensures
            opt_route(r) == value_of(self@.routes, event_id@),
    {
        proof {
            self.lookup_facts(event_id@);
        }
        match self.routes.peek(event_id) {
            Some(route) => Some(route.duplicate()),
            None => None,
        }
    }

    /// Takes out the route `event_id`.
    pub fn pop(&mut self, event_id: &str) -> (r: Option<RouteEntry>)
        requires
            old(self).wf(),
        ensures
            final(self).wf(),
            final(self)@ == old(self)@.popped(event_id@),
            opt_route(r) == value_of(old(self)@.routes, event_id@),
    {
        proof {
            self.lookup_facts(event_id@);
        }
        match self.routes.pop(event_id) {
            Some(route) => {
                self.cleanup_indexes(event_id, &route);
                Some(route)
            },
            None => None,
        }
    }

    /// Takes out every route that the index lists for a client, and returns how many event ids
    /// it listed.
    pub fn remove_for_client(&mut self, client_pubkey: &str) -> (r: usize)
        requires
            old(self).wf(),
        ensures
            final(self).wf(),
            ({
                let before = old(self)@;
                let after = final(self)@;
                if before.clients.contains_key(client_pubkey@) {
                    let ids = before.clients[client_pubkey@];
                    &&& r == ids.len()
                    &&& after.capacity == before.capacity
                    &&& after.clients == before.clients.remove(client_pubkey@)
                    &&& after.routes == retain(before.routes, not_among(ids))
                    &&& forall|t: Seq<char>| #[trigger]
                        after.tokens.contains_key(t) <==> before.tokens.contains_key(t)
                            && !token_among(before.routes, ids, t)
                    &&& forall|t: Seq<char>| #[trigger]
                        after.tokens.contains_key(t) ==> after.tokens[t] == before.tokens[t]
                } else {
                    r == 0 && after == before
                }
            }),
    {
        let ghost before = self@;
        proof {
            self.wf_facts();
        }
        let ids = match self.client_event_ids.remove(client_pubkey) {
            Some(ids) => ids,
            None => {
                assert(self@.clients =~= before.clients);
                return 0;
            },
        };
        assert(self@.clients =~= before.clients.remove(client_pubkey@));
        let list = ids.items();
        let ghost names = texts(list@);
        let mut i: usize = 0;
        proof {
            retain_all(before.routes, not_listed(names.take(0)));
        }
        while i < list.len()
            invariant
                i <= list@.len(),
                names == texts(list@),
                self.wf(),
                keys_distinct(before.routes),
                self@.capacity == before.capacity,
                self@.clients == before.clients.remove(client_pubkey@),
                self@.routes == retain(before.routes, not_listed(names.take(i as int))),
                forall|t: Seq<char>| #[trigger]
                    self@.tokens.contains_key(t) <==> before.tokens.contains_key(t)
                        && !token_listed(before.routes, names.take(i as int), t),
                forall|t: Seq<char>| #[trigger]
                    self@.tokens.contains_key(t) ==> self@.tokens[t] == before.tokens[t],
            decreases list@.len() - i,
        {
            let ghost name = names[i as int];
            let ghost at = self@;
            let ghost seen = names.take(i as int);
            let ghost more = names.take(i + 1);
            proof {
                assert(name == list@[i as int]@);
                assert(more =~= seen.push(name));
                assert forall|k: Seq<char>| more.contains(k) == (seen.contains(k) || k == name) by {
                    if seen.contains(k) {
                        let j = seen.index_of(k);
                        assert(more[j] == k);
                    }
                    assert(more[i as int] == name);
                }
                retain_without(before.routes, not_listed(seen), not_listed(more), name);
                retain_lookup(before.routes, not_listed(seen), name);
                self.lookup_facts(name);
            }
            match self.routes.pop(list[i].as_str()) {
                Some(route) => {
                    if let Some(token) = &route.progress_token {
                        let _ = self.progress_token_to_event.remove(token.as_str());
                    }
                    proof {
                        assert(self@.tokens =~= token_forgotten(at.tokens, route@.progress_token));
                        assert(value_of(before.routes, name) == Some(route@));
                        assert forall|t: Seq<char>| token_listed(before.routes, more, t) == (
                        token_listed(before.routes, seen, t) || route@.progress_token == Some(t)) by {
                            if token_listed(before.routes, seen, t) {
                                let k = choose|k: Seq<char>| #[trigger]
                                    seen.contains(k) && has_token(before.routes, k, t);
                                assert(more.contains(k));
                            }
                            if route@.progress_token == Some(t) {
                                assert(more.contains(name) && has_token(before.routes, name, t));
                            }
                        }
                    }
                },
                None => {
                    proof {
                        assert(self@.tokens =~= at.tokens);
                        assert forall|t: Seq<char>| token_listed(before.routes, more, t)
                            == token_listed(before.routes, seen, t) by {
                            if token_listed(before.routes, seen, t) {
                                let k = choose|k: Seq<char>| #[trigger]
                                    seen.contains(k) && has_token(before.routes, k, t);
                                assert(more.contains(k));
                            }
                            if token_listed(before.routes, more, t) {
                                let k = choose|k: Seq<char>| #[trigger]
                                    more.contains(k) && has_token(before.routes, k, t);
                                if k == name && !seen.contains(name) {
                                    assert(value_of(before.routes, name) is None);
                                }
                                assert(seen.contains(k));
                            }
                        }
                    }
                },
            }
            i = i + 1;
        }
        proof {
            assert(names.take(names.len() as int) =~= names);
            assert forall|k: Seq<char>| names.contains(k) == ids@.contains(k) by {
                assert(names.to_set().contains(k) == names.contains(k));
            }
            retain_agrees(before.routes, not_listed(names), not_among(ids@));
            assert forall|t: Seq<char>| token_listed(before.routes, names, t) == token_among(
                before.routes,
                ids@,
                t,
            ) by {
                if token_listed(before.routes, names, t) {
                    let k = choose|k: Seq<char>| #[trigger]
                        names.contains(k) && has_token(before.routes, k, t);
                    assert(ids@.contains(k));
                }
                if token_among(before.routes, ids@, t) {
                    let k = choose|k: Seq<char>| #[trigger]
                        ids@.contains(k) && has_token(before.routes, k, t);
                    assert(names.contains(k));
                }
            }
        }
        list.len()
    }

    /// Whether there is a route `event_id`.
    pub fn has_event_route(&self, event_id: &str) -> (r: bool)
        requires
            self.wf(),
        ensures
            r == has_key(self@.routes, event_id@),
    {
        proof {
            self.lookup_facts(event_id@);
        }
        self.routes.contains(event_id)
    }

    /// Whether the index lists a route for a client.
    pub fn has_active_routes_for_client(&self, client_pubkey: &str) -> (r: bool)
        ensures
            r == (self@.clients.contains_key(client_pubkey@) && self@.clients[client_pubkey@].len()
                > 0),
    {
        match self.client_event_ids.get(client_pubkey) {
            Some(set) => set.len() > 0,
            None => false,
        }
    }

    /// The event id for a progress token.
    pub fn get_event_id_by_progress_token(&self, token: &str) -> (r: Option<String>)
        ensures
            match r {
                Some(id) => self@.tokens.contains_key(token@) && id@ == self@.tokens[token@],
                None => !self@.tokens.contains_key(token@),
            },
    {
        match self.progress_token_to_event.get(token) {
            Some(id) => Some(id.clone()),
            None => None,
        }
    }

    /// Whether a progress token is known.
    pub fn has_progress_token(&self, token: &str) -> (r: bool)
        ensures
            r == self@.tokens.contains_key(token@),
    {
        self.progress_token_to_event.contains_key(token)
    }

    /// Number of routes.
    pub fn event_route_count(&self) -> (r: usize)
        ensures
            r == self@.routes.len(),
    {
        self.routes.len()
    }

    /// Number of known progress tokens.
    pub fn progress_token_count(&self) -> (r: usize)
        ensures
            r == self@.tokens.len(),
    {
        assert(self@.tokens.dom() =~= self.progress_token_to_event@.dom());
        self.progress_token_to_event.len()
    }

    /// Takes out the routes that are `timeout` or more old at `now`, and returns their event ids.
    pub fn sweep_stale_routes(&mut self, now: u64, timeout: u64) -> (r: Vec<String>)
        requires
            old(self).wf(),
        ensures
            final(self).wf(),
            texts(r@) == old(self)@.stale(now, timeout),
            final(self)@ == old(self)@.popped_all(old(self)@.stale(now, timeout)),
    {
        let ghost start = self@;
        proof {
            self.wf_facts();
        }
        let keys = self.routes.keys();
        let mut expired: Vec<String> = Vec::new();
        let mut i: usize = 0;
        assert(texts(expired@) =~= stale_keys(start.routes.take(0), now, timeout));
        while i < keys.len()
            invariant
                i <= keys@.len(),
                keys@.len() == start.routes.len(),
                self.wf(),
                self@ == start,
                keys_distinct(start.routes),
                forall|j: int| 0 <= j < keys@.len() ==> (#[trigger] keys@[j])@ == start.routes[j].0,
                texts(expired@) == stale_keys(start.routes.take(i as int), now, timeout),
            decreases keys@.len() - i,
        {
            let ghost done = texts(expired@);
            proof {
                self.lookup_facts(start.routes[i as int].0);
                entry_found(start.routes, i as int);
                assert(keys@[i as int]@ == start.routes[i as int].0);
                assert(start.routes.take(i + 1).drop_last() =~= start.routes.take(i as int));
                assert(start.routes.take(i + 1).last() == start.routes[i as int]);
            }
            let overdue = match self.routes.peek(keys[i].as_str()) {
                Some(route) => age_of(now, route.registered_at) >= timeout,
                None => false,
            };
            if overdue {
                expired.push(keys[i].clone());
                assert(texts(expired@) =~= done.push(start.routes[i as int].0));
            }
            i = i + 1;
        }
        assert(start.routes.take(i as int) =~= start.routes);
        let ghost names = texts(expired@);
        let mut j: usize = 0;
        assert(names.take(0) =~= Seq::<Seq<char>>::empty());
        while j < expired.len()
            invariant
                j <= expired@.len(),
                names == texts(expired@),
                self.wf(),
                self@ == start.popped_all(names.take(j as int)),
            decreases expired@.len() - j,
        {
            assert(names[j as int] == expired@[j as int]@);
            let _ = self.pop(expired[j].as_str());
            assert(names.take(j + 1).drop_last() =~= names.take(j as int));
            assert(names.take(j + 1).last() == names[j as int]);
            j = j + 1;
        }
        assert(names.take(j as int) =~= names);
        expired
    }

    /// Takes out every route and empties the indexes.
    pub fn clear(&mut self)
        requires
            old(self).wf(),
        ensures
            final(self).wf(),
            final(self)@ == (RouteStoreV {
                routes: Seq::empty(),
                capacity: old(self)@.capacity,
                tokens: Map::empty(),
                clients: Map::empty(),
            }),
    {
        self.routes.clear();
        self.progress_token_to_event.clear();
        self.client_event_ids.clear();
        assert(self@.routes =~= Seq::<(Seq<char>, RouteV)>::empty());
        assert(self@.tokens =~= Map::<Seq<char>, Seq<char>>::empty());
        assert(self@.clients =~= Map::<Seq<char>, Set<Seq<char>>>::empty());
    }
}

/// The test for an entry whose key is not in a set.
pub open spec fn not_among(ids: Set<Seq<char>>) -> spec_fn((Seq<char>, RouteV)) -> bool {
    |e: (Seq<char>, RouteV)| !ids.contains(e.0)
}

spec fn not_listed(names: Seq<Seq<char>>) -> spec_fn((Seq<char>, RouteV)) -> bool {
    |e: (Seq<char>, RouteV)| !names.contains(e.0)
}

/// Whether the route `event_id` has this progress token.
pub open spec fn has_token(
    routes: Seq<(Seq<char>, RouteV)>,
    event_id: Seq<char>,
    token: Seq<char>,
) -> bool {
    value_of(routes, event_id) matches Some(route) && route.progress_token == Some(token)
}

/// Whether one of the given routes has this progress token.
pub open spec fn token_among(
    routes: Seq<(Seq<char>, RouteV)>,
    ids: Set<Seq<char>>,
    token: Seq<char>,
) -> bool {
    exists|k: Seq<char>| #[trigger] ids.contains(k) && has_token(routes, k, token)
}

spec fn token_listed(
    routes: Seq<(Seq<char>, RouteV)>,
    names: Seq<Seq<char>>,
    token: Seq<char>,
) -> bool {
    exists|k: Seq<char>| #[trigger] names.contains(k) && has_token(routes, k, token)
}

proof fn unindexed_knows(s: RouteStoreV, event_id: Seq<char>, route: RouteV)
    requires
        s.clients_know_routes(),
        s.clients_finite(),
        !has_key(s.routes, event_id),
    ensures
        s.unindexed(event_id, route).clients_know_routes(),
        s.unindexed(event_id, route).clients_finite(),
{
    let after = s.unindexed(event_id, route);
    let c = route.client_pubkey;
    assert forall|i: int| 0 <= i < after.routes.len() implies after.clients.contains_key(
        (#[trigger] after.routes[i]).1.client_pubkey,
    ) && after.clients[after.routes[i].1.client_pubkey].contains(after.routes[i].0) by {
        let e = s.routes[i];
        assert(e.0 != event_id);
        if e.1.client_pubkey == c {
            assert(s.clients[c].remove(event_id).contains(e.0));
            if s.clients[c].remove(event_id).len() == 0 {
                assert(s.clients[c].remove(event_id) =~= Set::<Seq<char>>::empty());
            }
        }
    }
}

/// Taking out several routes leaves the others, in their order.
pub proof fn pop_keeps_other_routes(s: RouteStoreV, event_ids: Seq<Seq<char>>)
    requires
        keys_distinct(s.routes),
    ensures
        s.popped_all(event_ids).routes == retain(s.routes, not_among(event_ids.to_set())),
        s.popped_all(event_ids).capacity == s.capacity,
    decreases event_ids.len(),
{
    if event_ids.len() == 0 {
        retain_all(s.routes, not_among(event_ids.to_set()));
    } else {
        let init = event_ids.drop_last();
        let last = event_ids.last();
        pop_keeps_other_routes(s, init);
        assert forall|k: Seq<char>| event_ids.contains(k) == (init.contains(k) || k == last) by {
            if init.contains(k) {
                assert(event_ids[init.index_of(k)] == k);
            }
            if event_ids.contains(k) && k != last {
                assert(init[event_ids.index_of(k)] == k);
            }
            assert(event_ids[event_ids.len() - 1] == last);
        }
        retain_without(
            s.routes,
            not_among(init.to_set()),
            not_among(event_ids.to_set()),
            last,
        );
        retain_lookup(s.routes, not_among(init.to_set()), last);
    }
}

/// A client with a route is never without an index entry: registering a route, whatever has to
/// leave for it, keeps every route reachable through its client.
pub proof fn register_keeps_client_index(s: RouteStoreV, event_id: Seq<char>, route: RouteV)
    requires
        s.bounded(),
        s.clients_know_routes(),
        s.clients_finite(),
    ensures
        s.registered(event_id, route).bounded(),
        s.registered(event_id, route).clients_know_routes(),
        s.registered(event_id, route).clients_finite(),
        value_of(s.registered(event_id, route).routes, event_id) == Some(route),
{
    pushed_facts(s.routes, s.capacity, event_id, route);
    let indexed = RouteStoreV {
        tokens: token_learned(s.tokens, route.progress_token, event_id),
        clients: client_learns(s.clients, route.client_pubkey, event_id),
        routes: pushed(s.routes, s.capacity, event_id, route),
        ..s
    };
    let after = indexed.routes;
    assert(indexed.clients_know_routes()) by {
        assert forall|i: int| 0 <= i < after.len() implies indexed.clients.contains_key(
            (#[trigger] after[i]).1.client_pubkey,
        ) && indexed.clients[after[i].1.client_pubkey].contains(after[i].0) by {
            if i > 0 {
                entry_found(after, i);
                assert(after[i].0 != after[0].0);
                assert(value_of(s.routes, after[i].0) == Some(after[i].1));
                let j = crate::lru_cache::index_of_key(s.routes, after[i].0);
                assert(s.routes[j] == after[i]);
            }
        }
    }
    assert(indexed.clients_finite()) by {
        let c = route.client_pubkey;
        let grown = indexed.clients[c];
        assert(grown.contains(event_id));
        assert(grown.finite());
        assert(grown.len() > 0) by {
            if grown.len() == 0 {
                assert(grown =~= Set::<Seq<char>>::empty());
            }
        }
    }
    if let Some((gone, old_route)) = displaced(s.routes, s.capacity, event_id) {
        if gone != event_id {
            assert(value_of(after, gone) is None);
            unindexed_knows(indexed, gone, old_route);
        }
    }
}

/// Taking out a route keeps every other route reachable through its client.
pub proof fn pop_keeps_client_index(s: RouteStoreV, event_id: Seq<char>)
    requires
        s.bounded(),
        s.clients_know_routes(),
        s.clients_finite(),
    ensures
        s.popped(event_id).bounded(),
        s.popped(event_id).clients_know_routes(),
        s.popped(event_id).clients_finite(),
        !has_key(s.popped(event_id).routes, event_id),
{
    without_facts(s.routes, event_id);
    if let Some(route) = value_of(s.routes, event_id) {
        let rest = RouteStoreV { routes: without(s.routes, event_id), ..s };
        assert(rest.clients_know_routes()) by {
            assert forall|i: int| 0 <= i < rest.routes.len() implies rest.clients.contains_key(
                (#[trigger] rest.routes[i]).1.client_pubkey,
            ) && rest.clients[rest.routes[i].1.client_pubkey].contains(rest.routes[i].0) by {
                entry_found(rest.routes, i);
                let k = rest.routes[i].0;
                assert(value_of(s.routes, k) == Some(rest.routes[i].1));
                let j = crate::lru_cache::index_of_key(s.routes, k);
                assert(s.routes[j] == rest.routes[i]);
            }
        }
        unindexed_knows(rest, event_id, route);
    }
}

/// A client with a route has active routes, in every store whose client index is complete.
pub proof fn client_with_route_is_active(s: RouteStoreV, event_id: Seq<char>)
    requires
        s.clients_know_routes(),
        s.clients_finite(),
        has_key(s.routes, event_id),
    ensures
        ({
            let client = value_of(s.routes, event_id).unwrap().client_pubkey;
            s.clients.contains_key(client) && s.clients[client].len() > 0
        }),
{
    let i = crate::lru_cache::index_of_key(s.routes, event_id);
    assert(s.routes[i].0 == event_id);
}

/// A registered route is taken out once: the first pop returns it, the next finds nothing.
pub proof fn pop_consumes(s: RouteStoreV, event_id: Seq<char>, route: RouteV)
    requires
        s.bounded(),
        s.clients_know_routes(),
        s.clients_finite(),
    ensures
        value_of(s.registered(event_id, route).routes, event_id) == Some(route),
        value_of(s.registered(event_id, route).popped(event_id).routes, event_id) is None,
{
    register_keeps_client_index(s, event_id, route);
    pop_keeps_client_index(s.registered(event_id, route), event_id);
}

/// A route is overdue once it is as old as the timeout, and then only: every route is found
/// overdue exactly if as much time has passed since it was noted.
pub proof fn stale_routes_are_overdue(s: RouteStoreV, now: u64, timeout: u64, event_id: Seq<char>)
    requires
        keys_distinct(s.routes),
    ensures
        s.stale(now, timeout).contains(event_id) <==> (value_of(s.routes, event_id) matches Some(
            route,
        ) && (now >= route.registered_at + timeout || timeout == 0)),
        s.stale(now, timeout).len() <= s.routes.len(),
{
    stale_keys_facts(s.routes, now, timeout);
    if has_key(s.routes, event_id) {
        let i = index_of_key(s.routes, event_id);
        assert(s.routes[i].0 == event_id);
        if s.stale(now, timeout).contains(event_id) {
            let j = choose|j: int|
                0 <= j < s.routes.len() && (#[trigger] s.routes[j]).0 == event_id && age(
                    now,
                    s.routes[j].1.registered_at,
                ) >= timeout;
            assert(i == j);
        }
    }
}

proof fn stale_keys_facts(routes: Seq<(Seq<char>, RouteV)>, now: u64, timeout: u64)
    ensures
        stale_keys(routes, now, timeout).len() <= routes.len(),
        forall|k: Seq<char>| #[trigger]
            stale_keys(routes, now, timeout).contains(k) <==> exists|j: int|
                0 <= j < routes.len() && (#[trigger] routes[j]).0 == k && age(
                    now,
                    routes[j].1.registered_at,
                ) >= timeout,
    decreases routes.len(),
{
    if routes.len() > 0 {
        let init = routes.drop_last();
        let rest = stale_keys(init, now, timeout);
        let all = stale_keys(routes, now, timeout);
        stale_keys_facts(init, now, timeout);
        assert forall|k: Seq<char>| #[trigger] all.contains(k) <==> exists|j: int|
            0 <= j < routes.len() && (#[trigger] routes[j]).0 == k && age(
                now,
                routes[j].1.registered_at,
            ) >= timeout by {
            if all.contains(k) {
                let i = all.index_of(k);
                if i < rest.len() {
                    assert(rest[i] == k);
                    assert(rest.contains(k));
                    let j = choose|j: int|
                        0 <= j < init.len() && (#[trigger] init[j]).0 == k && age(
                            now,
                            init[j].1.registered_at,
                        ) >= timeout;
                    assert(routes[j] == init[j]);
                } else {
                    assert(routes[routes.len() - 1].0 == k);
                }
            }
            if exists|j: int|
                0 <= j < routes.len() && (#[trigger] routes[j]).0 == k && age(
                    now,
                    routes[j].1.registered_at,
                ) >= timeout {
                let j = choose|j: int|
                    0 <= j < routes.len() && (#[trigger] routes[j]).0 == k && age(
                        now,
                        routes[j].1.registered_at,
                    ) >= timeout;
                if j < init.len() {
                    assert(init[j] == routes[j]);
                    assert(rest.contains(k));
                    let i = rest.index_of(k);
                    assert(all[i] == k);
                } else {
                    assert(all[all.len() - 1] == k);
                }
            }
        }
    }
}

/// A route that is noted is found by its event and by its token, and its client counts as busy; a
/// route that is used up is found by neither. All other routes stay as they are, but for the least
/// recently used one where there is no room.
pub proof fn routes_are_found_until_used(
    s: RouteStoreV,
    event_id: Seq<char>,
    route: RouteV,
    other: Seq<char>,
)
    requires
        s.bounded(),
        s.routes.len() < s.capacity,
        !has_key(s.routes, event_id),
    ensures
        ({
            let noted = s.registered(event_id, route);
            let used = noted.popped(event_id);
            &&& value_of(noted.routes, event_id) == Some(route)
            &&& route.progress_token matches Some(t) ==> noted.tokens.contains_key(t)
                && noted.tokens[t] == event_id && !used.tokens.contains_key(t)
            &&& noted.clients.contains_key(route.client_pubkey)
                && noted.clients[route.client_pubkey].contains(event_id)
            &&& !has_key(used.routes, event_id)
            &&& used.clients.contains_key(route.client_pubkey)
                ==> !used.clients[route.client_pubkey].contains(event_id)
            &&& other != event_id ==> value_of(noted.routes, other) == value_of(s.routes, other)
                && value_of(used.routes, other) == value_of(s.routes, other)
            &&& route.progress_token != Some(other) ==> noted.tokens.contains_key(other)
                == s.tokens.contains_key(other) && noted.tokens[other] == s.tokens[other]
                && used.tokens.contains_key(other) == s.tokens.contains_key(other)
            &&& other != route.client_pubkey ==> noted.clients.contains_key(other)
                == s.clients.contains_key(other) && used.clients.contains_key(other)
                == s.clients.contains_key(other)
        }),
{
    pushed_facts(s.routes, s.capacity, event_id, route);
    let noted = s.registered(event_id, route);
    without_facts(noted.routes, event_id);
}

/// Where there is no room, the least recently used route makes place for a new one: it is found no
/// more, neither by its event nor by its token, and no longer keeps its client busy.
pub proof fn oldest_route_makes_place(
    s: RouteStoreV,
    event_id: Seq<char>,
    route: RouteV,
    gone: Seq<char>,
    old_route: RouteV,
)
    requires
        s.bounded(),
        s.routes.len() == s.capacity,
        !has_key(s.routes, event_id),
        s.routes.last() == (gone, old_route),
    ensures
        ({
            let noted = s.registered(event_id, route);
            &&& !has_key(noted.routes, gone)
            &&& value_of(noted.routes, event_id) == Some(route)
            &&& old_route.progress_token matches Some(t) ==> !noted.tokens.contains_key(t)
            &&& noted.clients.contains_key(old_route.client_pubkey)
                ==> !noted.clients[old_route.client_pubkey].contains(gone)
            &&& noted.routes.len() == s.capacity
        }),
{
    pushed_facts(s.routes, s.capacity, event_id, route);
    assert(s.routes[s.routes.len() - 1].0 == gone);
    assert(value_of(s.registered(event_id, route).routes, gone) is None);
}

} // verus!
