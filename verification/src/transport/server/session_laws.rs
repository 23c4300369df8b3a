//! What the server knows of its clients and of their requests, and for how long.

use vstd::prelude::*;

use super::access::is_authorized;
use super::correlation_store::{client_forgets, not_among, RouteV};
use super::delivery_laws::fresh_sender;
use super::laws::{heard_facts, registered_facts, updated_facts};
use super::oversized_peers::{in_time, PeersV};
use super::session_store::not_silent;
use super::transport::{
    has_room, request_token_text, PreparedV, ServerActionV, ServerInboundV, ServerStateV,
};
use crate::constants::{
    DEFAULT_LRU_SIZE, EPHEMERAL_GIFT_WRAP_KIND, NOTIFICATIONS_INITIALIZED_METHOD,
    SUPPORT_ENCRYPTION, SUPPORT_ENCRYPTION_EPHEMERAL, SUPPORT_OPEN_STREAM,
    SUPPORT_OVERSIZED_TRANSFER,
};
use crate::json::JsonV;
use crate::lru_cache::{has_key, value_of};
use crate::message::MessageV;
use crate::recency_map::{
    keys_distinct, mapped, mapped_facts, pushed_facts, retain, retain_lookup,
};
use crate::seen_ids::noted_is_seen;
use crate::signed_event::PartsV;
use crate::tag::flag_tag;
use crate::transport::client::transport::Screening;
use crate::transport::open_stream::registry::looks_like_stream_frame;
use crate::transport::oversized_transfer::receiver::{looks_oversized, ReceiverV};
use crate::types::{gift_wrap_kind, ClientV, EncryptionMode};

verus! {

/// Whether a message is a frame of a transfer or of a stream, as far as the server takes part in
/// these.
pub open spec fn is_frame(s: ServerStateV, m: MessageV) -> bool {
    m is Notification && ((s.oversized.enabled && looks_oversized(m->Notification_0)) || (
    s.streams.enabled && looks_like_stream_frame(m->Notification_0)))
}

/// What is known of a client before an event: nothing, of one that is not there.
pub open spec fn known_before(s: ServerStateV, client: Seq<char>, known: spec_fn(ClientV) -> bool) -> bool {
    value_of(s.sessions.entries, client) matches Some(c) && known(c)
}

proof fn session_after(s: ServerStateV, now: u64, inbound: ServerInboundV, m: MessageV)
    requires
        s.sessions.bounded(),
        has_room(s.sessions, s.routes, inbound.sender),
        is_authorized(s.allowed, s.excluded, inbound.sender, m),
    ensures
        ({
            let c = s.sender_after(now, inbound);
            value_of(s.received(now, inbound, m).0.sessions.entries, inbound.sender) == Some(
                if is_frame(s, m) {
                    c
                } else {
                    match m {
                        MessageV::Request { id, .. } => super::transport::client_requested(
                            c,
                            inbound.event_id,
                            id,
                            request_token_text(m),
                        ),
                        MessageV::Notification(n) => if n.method
                            == NOTIFICATIONS_INITIALIZED_METHOD@ {
                            ClientV { is_initialized: true, ..c }
                        } else {
                            c
                        },
                        _ => c,
                    }
                },
            )
        }),
{
    heard_facts(s, now, inbound);
    let h = s.heard(now, inbound);
    let c = s.sender_after(now, inbound);
    assert forall|y: ClientV|
        value_of(#[trigger] h.sessions.updated(inbound.sender, y).entries, inbound.sender) == Some(
            y,
        ) by {
        updated_facts(h.sessions, inbound.sender, y);
    }
}

/// Every event of a client that is served is taken note of: the client has been heard of now, and
/// as encrypted as the event was; what it supports is what it supported before and what the
/// event's tags and gift wrap say, of the features that are on. It counts as initialized from its
/// notification on, and as introduced as before.
pub proof fn client_is_heard(s: ServerStateV, now: u64, inbound: ServerInboundV, m: MessageV)
    requires
        s.sessions.bounded(),
        has_room(s.sessions, s.routes, inbound.sender),
        is_authorized(s.allowed, s.excluded, inbound.sender, m),
    ensures
        ({
            let known = |f: spec_fn(ClientV) -> bool| known_before(s, inbound.sender, f);
            let says = |name: Seq<char>| inbound.tags.contains(flag_tag(name));
            &&& value_of(s.received(now, inbound, m).0.sessions.entries, inbound.sender) matches Some(
                d,
            )
            &&& d.last_activity == now
            &&& d.is_encrypted <==> inbound.wrap_kind is Some
            &&& d.supports_ephemeral_gift_wrap <==> inbound.wrap_kind == Some(
                EPHEMERAL_GIFT_WRAP_KIND,
            ) || known(|c: ClientV| c.supports_ephemeral_gift_wrap)
            &&& d.supports_encryption <==> says(SUPPORT_ENCRYPTION@) || known(
                |c: ClientV| c.supports_encryption,
            )
            &&& d.supports_ephemeral_encryption <==> says(SUPPORT_ENCRYPTION_EPHEMERAL@) || known(
                |c: ClientV| c.supports_ephemeral_encryption,
            )
            &&& d.supports_oversized_transfer <==> (s.oversized.enabled && says(
                SUPPORT_OVERSIZED_TRANSFER@,
            )) || known(|c: ClientV| c.supports_oversized_transfer)
            &&& d.supports_open_stream <==> (s.streams.enabled && says(SUPPORT_OPEN_STREAM@))
                || known(|c: ClientV| c.supports_open_stream)
            &&& d.is_initialized <==> known(|c: ClientV| c.is_initialized) || (m is Notification
                && !is_frame(s, m) && m.method() == Some(NOTIFICATIONS_INITIALIZED_METHOD@))
            &&& d.has_sent_common_tags <==> known(|c: ClientV| c.has_sent_common_tags)
        }),
{
    session_after(s, now, inbound, m);
    fresh_sender(s, now, inbound);
}

/// A client that has sent something is still there after a clean-up as long as the timeout has not
/// passed since, and is gone after it.
pub proof fn active_client_survives_clean_up(
    s: ServerStateV,
    now: u64,
    inbound: ServerInboundV,
    m: MessageV,
    later: u64,
    timeout: u64,
)
    requires
        s.sessions.bounded(),
        has_room(s.sessions, s.routes, inbound.sender),
        is_authorized(s.allowed, s.excluded, inbound.sender, m),
    ensures
        ({
            let t = s.received(now, inbound, m).0;
            &&& later <= now + timeout ==> value_of(
                t.sessions.without_silent(later, timeout).entries,
                inbound.sender,
            ) == value_of(t.sessions.entries, inbound.sender) && has_key(
                t.sessions.without_silent(later, timeout).entries,
                inbound.sender,
            )
            &&& later > now + timeout ==> !has_key(
                t.sessions.without_silent(later, timeout).entries,
                inbound.sender,
            )
        }),
{
    let t = s.received(now, inbound, m).0;
    client_is_heard(s, now, inbound, m);
    received_keeps_keys_distinct(s, now, inbound, m);
    retain_lookup(t.sessions.entries, not_silent(later, timeout), inbound.sender);
}

proof fn received_keeps_keys_distinct(
    s: ServerStateV,
    now: u64,
    inbound: ServerInboundV,
    m: MessageV,
)
    requires
        s.sessions.bounded(),
        has_room(s.sessions, s.routes, inbound.sender),
        is_authorized(s.allowed, s.excluded, inbound.sender, m),
    ensures
        keys_distinct(s.received(now, inbound, m).0.sessions.entries),
{
    heard_facts(s, now, inbound);
    let h = s.heard(now, inbound);
    assert forall|y: ClientV|
        keys_distinct(#[trigger] h.sessions.updated(inbound.sender, y).entries) by {
        updated_facts(h.sessions, inbound.sender, y);
    }
}

/// A message that is no frame reaches the handler as it is, with its sender, its event and whether
/// it was encrypted; a frame never does.
pub proof fn messages_reach_the_handler(
    s: ServerStateV,
    now: u64,
    inbound: ServerInboundV,
    m: MessageV,
)
    ensures
        ({
            let action = s.received(now, inbound, m).2;
            &&& action is Forward <==> is_authorized(
                s.allowed,
                s.excluded,
                inbound.sender,
                m,
            ) && !is_frame(s, m)
            &&& action matches ServerActionV::Forward(incoming) ==> incoming.message == m
                && incoming.client_pubkey == inbound.sender && incoming.event_id
                == inbound.event_id && (incoming.is_encrypted <==> inbound.wrap_kind is Some)
            &&& action is Oversized ==> m is Notification && looks_oversized(m->Notification_0)
                && s.oversized.enabled
            &&& action is Stream ==> m is Notification && looks_like_stream_frame(
                m->Notification_0,
            ) && s.streams.enabled
        }),
{
}

/// A request that reaches the handler is noted: where its response goes, in which gift wrap it
/// came, which token it named, and with its client that it is waiting.
pub proof fn request_is_noted(
    s: ServerStateV,
    now: u64,
    inbound: ServerInboundV,
    m: MessageV,
)
    requires
        s.sessions.bounded(),
        s.routes.bounded(),
        has_room(s.sessions, s.routes, inbound.sender),
        is_authorized(s.allowed, s.excluded, inbound.sender, m),
        m is Request,
    ensures
        ({
            let t = s.received(now, inbound, m).0;
            let token = request_token_text(m);
            &&& value_of(t.routes.routes, inbound.event_id) matches Some(route)
            &&& route.client_pubkey == inbound.sender
            &&& route.original_request_id == m.id().unwrap()
            &&& route.progress_token == token
            &&& route.registered_at == now
            &&& t.wrap_kinds.contains_key(inbound.event_id)
            &&& t.wrap_kinds[inbound.event_id] == inbound.wrap_kind
            &&& value_of(t.sessions.entries, inbound.sender) matches Some(c)
            &&& c.pending_requests.contains_key(inbound.event_id)
            &&& token != Some(inbound.event_id) ==> c.pending_requests[inbound.event_id]
                == m.id().unwrap()
            &&& token matches Some(t) ==> c.pending_requests.contains_key(t)
                && c.pending_requests[t] == JsonV::Text(inbound.event_id)
                && c.event_to_progress_token.contains_key(inbound.event_id)
                && c.event_to_progress_token[inbound.event_id] == t
        }),
{
    session_after(s, now, inbound, m);
    let route = RouteV {
        client_pubkey: inbound.sender,
        original_request_id: m->Request_id,
        progress_token: request_token_text(m),
        wrap_kind: None,
        registered_at: now,
    };
    registered_facts(s.routes, inbound.event_id, route);
    let t = s.received(now, inbound, m).0;
    assert(value_of(t.routes.routes, inbound.event_id) == Some(route));
}

/// Other messages leave the routes as they are, and so does what is refused.
pub proof fn only_requests_are_routed(
    s: ServerStateV,
    now: u64,
    inbound: ServerInboundV,
    m: MessageV,
)
    requires
        !(m is Request),
    ensures
        s.received(now, inbound, m).0.routes == s.routes,
        s.received(now, inbound, m).0.wrap_kinds == s.wrap_kinds,
        s.received(now, inbound, m).0.streams.slots == s.streams.slots,
        s.received(now, inbound, m).0.manager == s.manager,
        s.received(now, inbound, m).0.snapshot == s.snapshot,
        s.received(now, inbound, m).0.seen == s.seen,
{
}

/// After a response has been sent nothing is kept of its request, and everything of all others.
pub proof fn sent_response_settles_its_request(
    s: ServerStateV,
    p: PreparedV,
    c: ClientV,
    other: Seq<char>,
)
    requires
        s.sessions.bounded(),
        value_of(s.sessions.entries, p.route.client_pubkey) == Some(c),
    ensures
        ({
            let t = s.sent(p);
            let d = value_of(t.sessions.entries, p.route.client_pubkey);
            &&& !t.wrap_kinds.contains_key(p.event_id)
            &&& d is Some
            &&& !d.unwrap().pending_requests.contains_key(p.event_id)
            &&& !d.unwrap().event_to_progress_token.contains_key(p.event_id)
            &&& p.route.progress_token matches Some(t) ==> !d.unwrap().pending_requests.contains_key(
                t,
            )
            &&& other != p.event_id && p.route.progress_token != Some(other) ==> {
                &&& d.unwrap().pending_requests.contains_key(other)
                    == c.pending_requests.contains_key(other)
                &&& d.unwrap().pending_requests[other] == c.pending_requests[other]
            }
            &&& other != p.event_id ==> {
                &&& t.wrap_kinds.contains_key(other) == s.wrap_kinds.contains_key(other)
                &&& t.wrap_kinds[other] == s.wrap_kinds[other]
                &&& d.unwrap().event_to_progress_token.contains_key(other)
                    == c.event_to_progress_token.contains_key(other)
            }
            &&& d.unwrap().last_activity == c.last_activity
            &&& d.unwrap().is_encrypted == c.is_encrypted
            &&& d.unwrap().is_initialized == c.is_initialized
            &&& d.unwrap().has_sent_common_tags == c.has_sent_common_tags
            &&& d.unwrap().supports_oversized_transfer == c.supports_oversized_transfer
            &&& t.routes == s.routes
            &&& t.streams == s.streams
        }),
{
    let d = super::transport::client_answered(c, p.event_id, p.route.progress_token);
    updated_facts(s.sessions, p.route.client_pubkey, d);
}

/// A response that could not be sent leaves its request waiting, as one that has just come.
pub proof fn unsent_response_leaves_its_request(s: ServerStateV, p: PreparedV, now: u64)
    requires
        s.routes.bounded(),
    ensures
        value_of(s.unsent(p, now).routes.routes, p.event_id) matches Some(route)
            && route.client_pubkey == p.route.client_pubkey && route.original_request_id
            == p.route.original_request_id && route.progress_token == p.route.progress_token
            && route.registered_at == now,
        s.unsent(p, now).sessions == s.sessions,
        s.unsent(p, now).wrap_kinds == s.wrap_kinds,
{
    registered_facts(
        s.routes,
        p.event_id,
        RouteV { wrap_kind: None, registered_at: now, ..p.route },
    );
}

/// What is to be done with an event: a gift wrap is opened unless the server does not encrypt, the
/// mode does not accept it or it has been opened before; anything else is taken as it is unless
/// the server insists on encryption.
pub proof fn events_are_screened(s: ServerStateV, kind: u16, event_id: Seq<char>)
    ensures
        gift_wrap_kind(kind) ==> s.screening(kind, event_id) == (if s.encryption
            != EncryptionMode::Disabled && s.gift_wrap.accepts(kind) && !has_key(s.seen, event_id) {
            Screening::Unwrap
        } else {
            Screening::Drop
        }),
        !gift_wrap_kind(kind) ==> s.screening(kind, event_id) == (if s.encryption
            == EncryptionMode::Required {
            Screening::Drop
        } else {
            Screening::Plain
        }),
{
}

/// A gift wrap is opened once: what comes out of it is taken if it verifies, whole and as encrypted
/// in that kind of gift wrap, and the gift wrap is dropped from then on. What does not verify is
/// not taken, and changes nothing.
pub proof fn gift_wraps_are_opened_once(
    s: ServerStateV,
    kind: u16,
    id: Seq<char>,
    inner: Option<PartsV>,
    verified: bool,
    other: Seq<char>,
)
    requires
        keys_distinct(s.seen),
        s.seen.len() < DEFAULT_LRU_SIZE,
        gift_wrap_kind(kind),
    ensures
        ({
            let (after, taken) = s.unwrapped(kind, id, inner, verified);
            &&& taken is Some <==> inner is Some && verified
            &&& taken is Some ==> after.screening(kind, id) == Screening::Drop
            &&& taken is None ==> after == s
            &&& other != id ==> after.screening(kind, other) == s.screening(kind, other)
            &&& taken matches Some((e, content)) ==> e.wrap_kind == Some(kind) && (
            inner matches Some(p) && e.sender == p.pubkey && e.event_id == p.event_id && content
                == p.content && e.tags == p.tags)
        }),
{
    noted_is_seen(s.seen, id);
    pushed_facts(s.seen, DEFAULT_LRU_SIZE as nat, id, ());
    assert(other != id ==> value_of(s.unwrapped(kind, id, inner, verified).0.seen, other)
        == value_of(s.seen, other));
}

/// A server that is closed has no clients, no routes, no transfers and no streams, and puts no more
/// requests to itself.
pub proof fn closed_server_is_at_rest(s: ServerStateV, key: Seq<char>)
    ensures
        !has_key(s.closed().sessions.entries, key),
        !has_key(s.closed().routes.routes, key),
        !s.closed().routes.tokens.contains_key(key),
        !s.closed().routes.clients.contains_key(key),
        !has_key(s.closed().peers.receivers, key),
        !has_key(s.closed().streams.readers, key),
        !s.closed().streams.slots.contains_key(key),
        !s.closed().streams.tokens.contains_key(key),
        !s.closed().manager.dispatching,
        s.closed().manager.common_tags() == s.manager.common_tags(),
        s.closed().encryption == s.encryption && s.closed().gift_wrap == s.gift_wrap,
{
}

/// A sweep gives up exactly the transfers that have been under way for more than the timeout, where
/// there is one, and forgets the clients without any; all others go on as they are.
pub proof fn sweep_gives_up_overdue_transfers(
    p: PeersV,
    now: u64,
    client: Seq<char>,
    token: Seq<char>,
)
    requires
        p.bounded(),
        has_key(p.receivers, client),
    ensures
        ({
            let before = value_of(p.receivers, client).unwrap();
            let t = before.transfers[token];
            let timeout = before.policy.transfer_timeout_ms;
            let goes_on = before.transfers.contains_key(token) && (timeout == 0 || now
                <= t.admitted_at + timeout);
            let after = value_of(p.swept(now).receivers, client);
            &&& goes_on && before.transfers.dom().finite() ==> (after matches Some(r)
                && r.transfers.contains_key(token) && r.transfers[token] == t)
            &&& after matches Some(r) ==> r.policy == before.policy && (r.transfers.contains_key(
                token,
            ) <==> goes_on)
        }),
{
    let before = value_of(p.receivers, client).unwrap();
    let f = |r: ReceiverV| in_time(r, now);
    let keep = |e: (Seq<char>, ReceiverV)| e.1.transfers.len() > 0;
    mapped_facts(p.receivers, f, p.capacity, client, before);
    retain_lookup(mapped(p.receivers, f), keep, client);
    assert(p.swept(now).receivers == retain(mapped(p.receivers, f), keep));
    let kept = in_time(before, now).transfers;
    if kept.contains_key(token) && before.transfers.dom().finite() {
        assert(kept.dom().subset_of(before.transfers.dom()));
        vstd::set_lib::lemma_len_subset(kept.dom(), before.transfers.dom());
        assert(kept.dom().contains(token));
        assert(kept.dom().len() > 0);
    }
}

/// A client whose last request is answered or forgotten is no longer busy, and one with another
/// request still is.
pub proof fn client_is_busy_while_requests_wait(
    clients: Map<Seq<char>, Set<Seq<char>>>,
    client: Seq<char>,
    event_id: Seq<char>,
    other: Seq<char>,
)
    requires
        clients.contains_key(client),
        clients[client].finite(),
    ensures
        ({
            let after = client_forgets(clients, client, event_id);
            &&& other != event_id && clients[client].contains(other) ==> after.contains_key(client)
                && after[client].contains(other)
            &&& after.contains_key(client) ==> !after[client].contains(event_id)
            &&& (forall|k: Seq<char>| #[trigger] clients[client].contains(k) ==> k == event_id)
                ==> !after.contains_key(client)
        }),
{
    let rest = clients[client].remove(event_id);
    if other != event_id && clients[client].contains(other) {
        assert(rest.contains(other));
        if rest.len() == 0 {
            assert(rest =~= Set::empty());
        }
    }
    if forall|k: Seq<char>| #[trigger] clients[client].contains(k) ==> k == event_id {
        assert(rest =~= Set::empty());
    }
}

/// A new server is as it is configured, and knows nobody and nothing: no clients, no routes, no
/// transfers and no streams. Its tags say who it is, how it encrypts and which features are on.
pub proof fn new_server_is_as_configured(
    config: super::config::NostrServerTransportConfig,
    key: Seq<char>,
)
    ensures
        ({
            let s = ServerStateV::fresh(config);
            &&& s.encryption == config.encryption_mode && s.gift_wrap == config.gift_wrap_mode
            &&& s.announced == config.is_announced_server
            &&& s.allowed == crate::text::texts(config.allowed_public_keys@)
            &&& s.excluded.len() == config.excluded_capabilities@.len()
            &&& s.oversized == config.oversized_transfer
            &&& s.session_timeout == config.session_timeout_ms
            &&& s.request_timeout == config.request_timeout_ms
            &&& s.streams.enabled == config.open_stream.enabled
            &&& !has_key(s.sessions.entries, key) && !has_key(s.routes.routes, key) && !has_key(
                s.seen,
                key,
            ) && !has_key(s.peers.receivers, key) && !has_key(s.streams.readers, key)
                && !s.streams.slots.contains_key(key) && !s.wrap_kinds.contains_key(key)
            &&& config.max_sessions >= 1 ==> s.sessions.capacity == config.max_sessions
                && s.peers.capacity == config.max_sessions && s.streams.capacity
                == config.max_sessions
            &&& config.max_sessions == 0 ==> s.sessions.capacity == 1
            &&& s.routes.capacity == 5000
            &&& s.manager.encryption == config.encryption_mode && s.manager.gift_wrap
                == config.gift_wrap_mode
            &&& s.manager.info == crate::types::opt_info(config.server_info)
            &&& s.manager.internal.contains(flag_tag(SUPPORT_OVERSIZED_TRANSFER@))
                <==> config.oversized_transfer.enabled
            &&& s.manager.internal.contains(flag_tag(SUPPORT_OPEN_STREAM@))
                <==> config.open_stream.enabled
            &&& s.manager.extra.len() == 0 && s.manager.pricing.len() == 0
            &&& s.manager.dispatching && !s.manager.initialized
            &&& s.snapshot == s.manager.snapshot()
            &&& s.peers.policy.transfer_timeout_ms == config.oversized_transfer.transfer_timeout_ms
            &&& s.streams.policy.idle_timeout_ms == config.open_stream.idle_timeout_ms
        }),
{
    let a = flag_tag(SUPPORT_OVERSIZED_TRANSFER@);
    let b = flag_tag(SUPPORT_OPEN_STREAM@);
    crate::transport::client::laws::discovery_names_differ();
    assert(a[0] != b[0]);
    super::config::feature_tags_say_what_is_on(
        config.oversized_transfer.enabled,
        config.open_stream.enabled,
        a,
    );
    super::config::feature_tags_say_what_is_on(
        config.oversized_transfer.enabled,
        config.open_stream.enabled,
        b,
    );
}

/// Once a server is started, clients that are refused get to know it by the tags that it has then,
/// and nothing else is different.
pub proof fn started_server_introduces_itself(s: ServerStateV)
    ensures
        s.started().snapshot.info == s.manager.info,
        s.started().snapshot.encryption == s.manager.encryption,
        s.started().snapshot.gift_wrap == s.manager.gift_wrap,
        s.started().snapshot.extra == s.manager.extra,
        s.started().snapshot.internal == s.manager.internal,
        s.started().manager == s.manager,
        s.started().sessions == s.sessions,
        s.started().routes == s.routes,
{
}

/// Who had to leave for a client is reported, and is gone; everybody else who was there still is,
/// and so is the client.
pub proof fn evicted_client_is_gone(
    s: ServerStateV,
    now: u64,
    inbound: ServerInboundV,
    m: MessageV,
    other: Seq<char>,
)
    requires
        s.sessions.bounded(),
        has_room(s.sessions, s.routes, inbound.sender),
        is_authorized(s.allowed, s.excluded, inbound.sender, m),
    ensures
        ({
            let (after, evicted, _) = s.received(now, inbound, m);
            &&& has_key(after.sessions.entries, other) <==> (has_key(s.sessions.entries, other)
                || other == inbound.sender) && evicted != Some(other)
            &&& evicted != Some(inbound.sender)
            &&& has_key(s.sessions.entries, inbound.sender) ==> evicted is None
        }),
{
    let sender = inbound.sender;
    let (after, evicted, _) = s.received(now, inbound, m);
    let w = s.with_sender(now, inbound).0;
    heard_facts(s, now, inbound);
    let h = s.heard(now, inbound);
    if !has_key(s.sessions.entries, sender) {
        super::session_store::only_the_reported_client_is_gone(
            s.sessions,
            sender,
            inbound.is_encrypted(),
            s.routes,
            now,
            other,
        );
        super::session_store::only_the_reported_client_is_gone(
            s.sessions,
            sender,
            inbound.is_encrypted(),
            s.routes,
            now,
            sender,
        );
        super::transport::let_in_is_there(
            s.sessions,
            s.routes,
            sender,
            inbound.is_encrypted(),
            now,
        );
    }
    assert(keys_distinct(w.entries));
    updated_facts(w, sender, s.sender_after(now, inbound));
    assert(value_of(h.sessions.entries, other) is Some <==> other == sender || value_of(
        w.entries,
        other,
    ) is Some);
    assert forall|y: ClientV|
        (value_of(#[trigger] h.sessions.updated(sender, y).entries, other) is Some <==> value_of(
            h.sessions.entries,
            other,
        ) is Some) by {
        updated_facts(h.sessions, sender, y);
    }
    assert(value_of(after.sessions.entries, other) is Some <==> value_of(
        h.sessions.entries,
        other,
    ) is Some);
}

/// What is shown of a client's session is what is known of it.
pub proof fn snapshots_show_the_session(c: ClientV)
    ensures
        c.snapshot().is_initialized == c.is_initialized,
        c.snapshot().is_encrypted == c.is_encrypted,
        c.snapshot().has_sent_common_tags == c.has_sent_common_tags,
        c.snapshot().supports_ephemeral_gift_wrap == c.supports_ephemeral_gift_wrap,
        c.snapshot().supports_encryption == c.supports_encryption,
        c.snapshot().supports_ephemeral_encryption == c.supports_ephemeral_encryption,
        c.snapshot().supports_oversized_transfer == c.supports_oversized_transfer,
        c.snapshot().supports_open_stream == c.supports_open_stream,
{
}

/// A client that is already there is not let in again: how it encrypts is noted, everything else of
/// it is kept, and nobody has to leave.
pub proof fn known_client_keeps_its_session(
    s: super::session_store::SessionsV,
    client: Seq<char>,
    c: ClientV,
    is_encrypted: bool,
    routes: super::correlation_store::RouteStoreV,
    now: u64,
)
    requires
        s.bounded(),
        value_of(s.entries, client) == Some(c),
    ensures
        ({
            let (after, created, evicted) = s.admitted(client, is_encrypted, routes, now);
            &&& !created
            &&& evicted is None
            &&& value_of(after.entries, client) matches Some(d)
            &&& d.is_encrypted == is_encrypted
            &&& d.last_activity == c.last_activity
            &&& d.is_initialized == c.is_initialized
            &&& d.has_sent_common_tags == c.has_sent_common_tags
            &&& d.supports_encryption == c.supports_encryption
            &&& d.supports_oversized_transfer == c.supports_oversized_transfer
            &&& d.supports_open_stream == c.supports_open_stream
            &&& d.supports_ephemeral_gift_wrap == c.supports_ephemeral_gift_wrap
            &&& d.pending_requests == c.pending_requests
        }),
{
    updated_facts(s, client, ClientV { is_encrypted, ..c });
}

/// Nothing is kept of the requests that are forgotten, neither their routes nor the gift wraps that
/// they came in; of all others everything is.
pub proof fn forgotten_requests_leave_nothing(
    s: ServerStateV,
    stale: Seq<Seq<char>>,
    id: Seq<char>,
)
    requires
        s.routes.bounded(),
    ensures
        ({
            let t = s.without_routes(stale);
            &&& stale.contains(id) ==> !has_key(t.routes.routes, id) && !t.wrap_kinds.contains_key(
                id,
            )
            &&& !stale.contains(id) ==> value_of(t.routes.routes, id) == value_of(
                s.routes.routes,
                id,
            ) && t.wrap_kinds.contains_key(id) == s.wrap_kinds.contains_key(id) && (
            s.wrap_kinds.contains_key(id) ==> t.wrap_kinds[id] == s.wrap_kinds[id])
            &&& t.sessions == s.sessions
            &&& t.streams == s.streams
        }),
{
    super::correlation_store::pop_keeps_other_routes(s.routes, stale);
    retain_lookup(s.routes.routes, not_among(stale.to_set()), id);
    assert(stale.to_set().contains(id) == stale.contains(id));
}

/// A sweep of transfers leaves everything else as it is.
pub proof fn transfer_sweep_touches_transfers_only(s: ServerStateV, now: u64)
    ensures
        s.transfers_swept(now).peers == s.peers.swept(now),
        s.transfers_swept(now).sessions == s.sessions,
        s.transfers_swept(now).routes == s.routes,
        s.transfers_swept(now).streams == s.streams,
{
}

/// The server's own tags are among those that introduce it from then on, in place of those before;
/// its prices are on its announcements, and on nothing else.
pub proof fn own_tags_are_announced(s: ServerStateV, tags: Seq<Seq<Seq<char>>>, kind: u16)
    ensures
        ({
            let m = s.with_extra_tags(tags).manager;
            let p = s.with_pricing_tags(tags).manager;
            &&& m.extra == tags && m.internal == s.manager.internal && m.info == s.manager.info
            &&& m.pricing == s.manager.pricing
            &&& p.common_tags() == s.manager.common_tags()
            &&& p.pricing == tags
            &&& kind != 11316 ==> p.announcement_tags(kind) == tags
        }),
{
}

} // verus!
