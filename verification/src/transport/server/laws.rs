//! What holds of the server end as a whole.

use vstd::prelude::*;
use vstd::utf8::*;

use super::access::is_authorized;
use super::correlation_store::{RouteStoreV, RouteV};
use super::oversized_peers::PeersV;
use super::session_store::{is_silent, not_silent, SessionsV};
use super::transport::{
    has_room, let_in_is_there, request_token_text, PreparedV, ResponsePlanV, ServerActionV,
    ServerInboundV, ServerStateV,
};
use crate::keys::{is_hex_key, lower_hex};
use crate::lru_cache::{has_key, value_of, without};
use crate::message::{answered_as_law, MessageV, NotificationV};
use crate::recency_map::{front_facts, keys_distinct, pushed_facts, retain_lookup, without_facts};
use crate::transport::oversized_transfer::codec::{chunk_texts, first_chunk_slot, transfer_frames};
use crate::transport::oversized_transfer::errors::TransferErrorV;
use crate::transport::oversized_transfer::laws::{
    accept_notification, conversation, feed, opening, opening_is_taken, transfer_round_trip,
};
use crate::transport::oversized_transfer::receiver::{step, Outcome};
use crate::transport::routing::{response_tags, response_wrap};
use crate::types::ClientV;

verus! {

pub(crate) proof fn updated_facts(s: SessionsV, client: Seq<char>, c: ClientV)
    requires
        keys_distinct(s.entries),
    ensures
        keys_distinct(s.updated(client, c).entries),
        value_of(s.updated(client, c).entries, client) == Some(c),
        forall|k: Seq<char>|
            k != client ==> #[trigger] value_of(s.updated(client, c).entries, k) == value_of(
                s.entries,
                k,
            ),
{
    without_facts(s.entries, client);
    front_facts(without(s.entries, client), client, c);
}

pub(crate) proof fn registered_facts(s: RouteStoreV, event_id: Seq<char>, route: RouteV)
    requires
        s.bounded(),
    ensures
        s.registered(event_id, route).bounded(),
        value_of(s.registered(event_id, route).routes, event_id) == Some(route),
{
    pushed_facts(s.routes, s.capacity, event_id, route);
}

pub(crate) proof fn heard_facts(s: ServerStateV, now: u64, inbound: ServerInboundV)
    requires
        s.sessions.bounded(),
        has_room(s.sessions, s.routes, inbound.sender),
    ensures
        keys_distinct(s.heard(now, inbound).sessions.entries),
        value_of(s.heard(now, inbound).sessions.entries, inbound.sender) == Some(
            s.sender_after(now, inbound),
        ),
{
    if !has_key(s.sessions.entries, inbound.sender) {
        let_in_is_there(s.sessions, s.routes, inbound.sender, inbound.is_encrypted(), now);
    }
    updated_facts(
        s.with_sender(now, inbound).0,
        inbound.sender,
        s.sender_after(now, inbound),
    );
}

/// What a client may not send reaches neither the handler nor any transfer or stream, and lets
/// nobody in.
pub proof fn refused_message_goes_nowhere(
    s: ServerStateV,
    now: u64,
    inbound: ServerInboundV,
    m: MessageV,
)
    requires
        !is_authorized(s.allowed, s.excluded, inbound.sender, m),
    ensures
        ({
            let (after, evicted, action) = s.received(now, inbound, m);
            &&& action is Denied
            &&& evicted is None
            &&& after.routes == s.routes
            &&& after.wrap_kinds == s.wrap_kinds
            &&& after.peers == s.peers
            &&& after.streams == s.streams
            &&& forall|k: Seq<char>|
                has_key(after.sessions.entries, k) ==> #[trigger] has_key(s.sessions.entries, k)
        }),
{
    let (after, evicted, action) = s.received(now, inbound, m);
    assert forall|k: Seq<char>| has_key(after.sessions.entries, k) implies #[trigger] has_key(
        s.sessions.entries,
        k,
    ) by {
        let old_entries = s.sessions.entries;
        let entries = after.sessions.entries;
        if entries != old_entries {
            let i = crate::lru_cache::index_of_key(entries, k);
            let at = crate::lru_cache::index_of_key(old_entries, inbound.sender);
            if i == 0 {
                assert(old_entries[at].0 == k);
            } else {
                let j = if i - 1 < at {
                    i - 1
                } else {
                    i
                };
                assert(old_entries[j].0 == k);
            }
        }
    }
}

/// A request that the server refuses is answered with the error code and the request's own id if
/// the server announces itself, and otherwise not at all.
pub proof fn refused_request_is_answered(
    s: ServerStateV,
    now: u64,
    inbound: ServerInboundV,
    m: MessageV,
)
    requires
        !is_authorized(s.allowed, s.excluded, inbound.sender, m),
        m is Request,
        is_hex_key(inbound.sender),
    ensures
        s.received(now, inbound, m).2 matches ServerActionV::Denied(reply) && (reply is Some
            <==> s.announced) && (reply matches Some(r) ==> {
            &&& r.message is ErrorResponse
            &&& r.message->ErrorResponse_code == -32000
            &&& r.message.id() == m.id()
            &&& r.recipient == lower_hex(inbound.sender)
            &&& r.is_encrypted == inbound.is_encrypted()
        }),
{
}

/// What a known client supports is never forgotten while it is known, whatever it sends.
pub proof fn capabilities_are_kept(
    s: ServerStateV,
    now: u64,
    inbound: ServerInboundV,
    m: MessageV,
    c: ClientV,
)
    requires
        s.sessions.bounded(),
        value_of(s.sessions.entries, inbound.sender) == Some(c),
    ensures
        value_of(s.received(now, inbound, m).0.sessions.entries, inbound.sender) matches Some(d)
            && (c.supports_encryption ==> d.supports_encryption) && (
        c.supports_ephemeral_encryption ==> d.supports_ephemeral_encryption) && (
        c.supports_ephemeral_gift_wrap ==> d.supports_ephemeral_gift_wrap) && (
        c.supports_oversized_transfer ==> d.supports_oversized_transfer) && (c.supports_open_stream
            ==> d.supports_open_stream) && (c.has_sent_common_tags ==> d.has_sent_common_tags) && (
        c.is_initialized ==> d.is_initialized),
{
    other_clients_are_untouched(s, now, inbound, m);
    let (after, _, _) = s.received(now, inbound, m);
    if is_authorized(s.allowed, s.excluded, inbound.sender, m) {
        heard_facts(s, now, inbound);
        let h = s.heard(now, inbound);
        let x = s.sender_after(now, inbound);
        assert forall|y: ClientV| value_of(h.with_client(inbound.sender, y).sessions.entries, inbound.sender)
            == Some(y) by {
            updated_facts(h.sessions, inbound.sender, y);
        }
    } else {
        updated_facts(
            s.sessions,
            inbound.sender,
            ClientV { has_sent_common_tags: true, ..c },
        );
    }
}

/// The message of a known client leaves the sessions of all other clients as they are.
pub proof fn other_clients_are_untouched(s: ServerStateV, now: u64, inbound: ServerInboundV, m: MessageV)
    requires
        s.sessions.bounded(),
        has_key(s.sessions.entries, inbound.sender),
    ensures
        forall|k: Seq<char>|
            k != inbound.sender ==> #[trigger] value_of(
                s.received(now, inbound, m).0.sessions.entries,
                k,
            ) == value_of(s.sessions.entries, k),
{
    let sender = inbound.sender;
    let (after, _, _) = s.received(now, inbound, m);
    if is_authorized(s.allowed, s.excluded, sender, m) {
        heard_facts(s, now, inbound);
        updated_facts(s.sessions, sender, s.sender_after(now, inbound));
        let h = s.heard(now, inbound);
        assert forall|k: Seq<char>| k != sender implies #[trigger] value_of(
            after.sessions.entries,
            k,
        ) == value_of(h.sessions.entries, k) by {
            if after.sessions != h.sessions {
                assert(after.sessions == h.sessions.updated(
                    sender,
                    after.sessions.entries[0].1,
                ));
                updated_facts(h.sessions, sender, after.sessions.entries[0].1);
            }
        }
    } else {
        let c = value_of(s.sessions.entries, sender).unwrap();
        updated_facts(s.sessions, sender, ClientV { has_sent_common_tags: true, ..c });
    }
}

/// The tags that introduce the server are sent to a client once: what makes them go out also
/// notes that they have, and once that is noted they do not go out again.
pub proof fn introduction_goes_out_once(
    s: ServerStateV,
    client: Seq<char>,
    m: MessageV,
    correlated: Option<Seq<char>>,
    event_id: Seq<char>,
    route: RouteV,
    response: MessageV,
)
    requires
        s.sessions.bounded(),
        route.client_pubkey == client,
    ensures
        has_key(s.sessions.entries, client) ==> ({
            &&& value_of(s.notification_plan(client, m, correlated).0.sessions.entries, client)
                matches Some(c)
            &&& c.has_sent_common_tags
        }),
        has_key(s.sessions.entries, client) ==> ({
            &&& value_of(s.along_route(event_id, route, response).0.sessions.entries, client)
                matches Some(c)
            &&& c.has_sent_common_tags
        }),
        (value_of(s.sessions.entries, client) matches Some(c) && c.has_sent_common_tags) ==> ({
            &&& s.notification_plan(client, m, None).1 matches Ok(r) ==> r.tags
                == crate::transport::routing::recipient_tags(lower_hex(client))
            &&& s.along_route(event_id, route, response).1 matches ResponsePlanV::Send(p)
                ==> p.tags == p.base_tags
        }),
{
    if let Some(c) = value_of(s.sessions.entries, client) {
        updated_facts(s.sessions, client, ClientV { has_sent_common_tags: true, ..c });
        assert(s.introduction(c) == Seq::<Seq<Seq<char>>>::empty() || !c.has_sent_common_tags);
        let base = response_tags(lower_hex(client), lower_hex(event_id));
        assert(base + Seq::<Seq<Seq<char>>>::empty() =~= base);
        let to = crate::transport::routing::recipient_tags(lower_hex(client));
        assert(to + Seq::<Seq<Seq<char>>>::empty() =~= to);
    }
}

/// A request is answered where it came from: the response that the handler gives for it goes to
/// the client that sent it, under the client's own id for it, encrypted if the request was, in
/// the kind of gift wrap that suits the request's.
pub proof fn request_is_answered_where_it_came_from(
    s: ServerStateV,
    now: u64,
    inbound: ServerInboundV,
    m: MessageV,
    response: MessageV,
)
    requires
        s.sessions.bounded(),
        s.routes.bounded(),
        has_room(s.sessions, s.routes, inbound.sender),
        is_authorized(s.allowed, s.excluded, inbound.sender, m),
        m is Request,
        response.is_response(),
        is_hex_key(inbound.sender),
        is_hex_key(inbound.event_id),
        !s.streams.slots.contains_key(inbound.event_id),
    ensures
        ({
            let (t, _, action) = s.received(now, inbound, m);
            &&& action matches ServerActionV::Forward(incoming)
            &&& incoming.message == m
            &&& incoming.client_pubkey == inbound.sender
            &&& incoming.event_id == inbound.event_id
            &&& t.response_plan(inbound.event_id, response).1 matches ResponsePlanV::Send(p)
            &&& p.recipient == lower_hex(inbound.sender)
            &&& p.response == response.answered_as(m->Request_id)
            &&& p.response.id() == m.id()
            &&& p.base_tags == response_tags(
                lower_hex(inbound.sender),
                lower_hex(inbound.event_id),
            )
            &&& p.is_encrypted == inbound.is_encrypted()
            &&& p.gift_wrap_kind == response_wrap(
                s.gift_wrap,
                inbound.is_encrypted(),
                inbound.wrap_kind,
            )
        }),
{
    heard_facts(s, now, inbound);
    let h = s.heard(now, inbound);
    let c = s.sender_after(now, inbound);
    let token = request_token_text(m);
    let noted = super::transport::client_requested(c, inbound.event_id, m->Request_id, token);
    updated_facts(h.sessions, inbound.sender, noted);
    let route = RouteV {
        client_pubkey: inbound.sender,
        original_request_id: m->Request_id,
        progress_token: token,
        wrap_kind: None,
        registered_at: now,
    };
    registered_facts(s.routes, inbound.event_id, route);
    answered_as_law(response, m->Request_id, m->Request_id);
    let t = s.received(now, inbound, m).0;
    assert(value_of(t.routes.routes, inbound.event_id) == Some(route));
    assert(value_of(t.sessions.entries, inbound.sender) == Some(noted));
    assert(t.mirrored(inbound.event_id) == inbound.wrap_kind);
}

/// A message that arrived in chunks is answered like any other request.
pub proof fn reassembled_request_is_answered_where_it_came_from(
    s: ServerStateV,
    now: u64,
    inbound: ServerInboundV,
    token: Option<Seq<char>>,
    m: MessageV,
    response: MessageV,
)
    requires
        s.sessions.bounded(),
        s.routes.bounded(),
        has_key(s.sessions.entries, inbound.sender),
        m is Request,
        response.is_response(),
        is_hex_key(inbound.sender),
        is_hex_key(inbound.event_id),
        !s.streams.slots.contains_key(inbound.event_id),
    ensures
        ({
            let (t, incoming) = s.reassembled(now, inbound, token, m);
            &&& incoming.message == m
            &&& t.response_plan(inbound.event_id, response).1 matches ResponsePlanV::Send(p)
            &&& p.recipient == lower_hex(inbound.sender)
            &&& p.response.id() == m.id()
            &&& p.route.progress_token == token
        }),
{
    let route = RouteV {
        client_pubkey: inbound.sender,
        original_request_id: m->Request_id,
        progress_token: token,
        wrap_kind: None,
        registered_at: now,
    };
    registered_facts(s.routes, inbound.event_id, route);
    answered_as_law(response, m->Request_id, m->Request_id);
    let t = s.reassembled(now, inbound, token, m).0;
    assert(value_of(t.routes.routes, inbound.event_id) == Some(route));
}

/// A request is answered at most once: after a response has gone out along its route, another
/// one for the same request fails.
pub proof fn request_is_answered_once(
    s: ServerStateV,
    event_id: Seq<char>,
    first: MessageV,
    second: MessageV,
)
    requires
        s.routes.bounded(),
    ensures
        s.responded(event_id, first).1 is Send ==> s.responded(event_id, first).0.responded(
            event_id,
            second,
        ).1 == ResponsePlanV::Fail("No client found for event "@ + event_id),
{
    without_facts(s.routes.routes, event_id);
}

/// A response that could not be published can be tried again: it goes to the same client under
/// the same id, only without the introduction.
pub proof fn failed_response_can_be_retried(
    s: ServerStateV,
    now: u64,
    event_id: Seq<char>,
    response: MessageV,
    p: PreparedV,
)
    requires
        s.sessions.bounded(),
        s.routes.bounded(),
        s.responded(event_id, response).1 == ResponsePlanV::Send(p),
    ensures
        ({
            let t = s.responded(event_id, response).0;
            let again = t.unsent(p, now);
            &&& again.responded(event_id, response).1 matches ResponsePlanV::Send(q)
            &&& q.recipient == p.recipient
            &&& q.response == p.response
            &&& q.base_tags == p.base_tags
            &&& q.tags == p.base_tags
            &&& q.is_encrypted == p.is_encrypted
            &&& q.gift_wrap_kind == p.gift_wrap_kind
            &&& q.oversized_token == p.oversized_token
        }),
{
    let client = p.route.client_pubkey;
    let c = value_of(s.sessions.entries, client).unwrap();
    let t = s.responded(event_id, response).0;
    updated_facts(s.sessions, client, ClientV { has_sent_common_tags: true, ..c });
    without_facts(s.routes.routes, event_id);
    registered_facts(
        t.routes,
        event_id,
        RouteV { wrap_kind: None, registered_at: now, ..p.route },
    );
    assert(p.base_tags + Seq::<Seq<Seq<char>>>::empty() =~= p.base_tags);
}

/// A response goes out in chunks only where the server does oversized transfers, the client is
/// known to support them, and its request named a progress token.
pub proof fn only_supporting_clients_get_chunks(
    s: ServerStateV,
    event_id: Seq<char>,
    response: MessageV,
)
    ensures
        s.responded(event_id, response).1 matches ResponsePlanV::Send(p) ==> (p.oversized_token
            is Some ==> {
            &&& s.oversized.enabled
            &&& value_of(s.sessions.entries, p.route.client_pubkey) matches Some(c)
            &&& c.supports_oversized_transfer
            &&& p.oversized_token == p.route.progress_token
        }),
{
}

/// A clean-up keeps every client that has been heard of recently, and forgets all others.
pub proof fn active_clients_are_kept(s: SessionsV, now: u64, timeout: u64, client: Seq<char>)
    requires
        s.bounded(),
    ensures
        value_of(s.without_silent(now, timeout).entries, client) == (match value_of(
            s.entries,
            client,
        ) {
            Some(c) => if is_silent(c, now, timeout) {
                None
            } else {
                Some(c)
            },
            None => None,
        }),
{
    retain_lookup(s.entries, not_silent(now, timeout), client);
}

/// What becomes of the receivers when a client's frames come in, each at its time, up to the first
/// that completes a transfer or fails. Where the server has accepted the transfer, it has done so
/// on the first frame.
pub open spec fn uploaded(
    p: PeersV,
    times: spec_fn(int) -> u64,
    client: Seq<char>,
    frames: Seq<NotificationV>,
    accepted: Option<Seq<char>>,
) -> (PeersV, Outcome)
    decreases frames.len(),
{
    if frames.len() == 0 {
        (p, Ok(None))
    } else {
        let before = uploaded(p, times, client, frames.drop_last(), accepted);
        if before.1 == Ok::<Option<Seq<char>>, TransferErrorV>(None) {
            before.0.fed(
                times(frames.len() - 1),
                client,
                frames.last(),
                if frames.len() == 1 {
                    accepted
                } else {
                    None
                },
            )
        } else {
            before
        }
    }
}

spec fn with_accept(frames: Seq<NotificationV>, accepted: Option<Seq<char>>) -> Seq<NotificationV> {
    match accepted {
        Some(token) => seq![frames[0], accept_notification(token)] + frames.skip(1),
        None => frames,
    }
}

spec fn with_accept_time(times: spec_fn(int) -> u64, accepted: Option<Seq<char>>) -> spec_fn(
    int,
) -> u64 {
    match accepted {
        Some(_) => |i: int|
            if i <= 1 {
                times(0)
            } else {
                times(i - 1)
            },
        None => times,
    }
}

proof fn fed_receiver(
    p: PeersV,
    now: u64,
    client: Seq<char>,
    n: NotificationV,
    accepted: Option<Seq<char>>,
)
    requires
        p.bounded(),
    ensures
        p.fed(now, client, n, accepted).0.bounded(),
        p.fed(now, client, n, accepted).0.receiver(client).policy == p.receiver(client).policy,
        p.fed(now, client, n, accepted).0.receiver(client).transfers == ({
            let r = p.receiver(client);
            let (first, outcome) = step(r.transfers, r.policy, now, n);
            match accepted {
                Some(token) => if outcome == Ok::<Option<Seq<char>>, TransferErrorV>(None) {
                    step(first, r.policy, now, accept_notification(token)).0
                } else {
                    first
                },
                None => first,
            }
        }),
        p.fed(now, client, n, accepted).1 == step(
            p.receiver(client).transfers,
            p.receiver(client).policy,
            now,
            n,
        ).1,
{
    let after = p.fed(now, client, n, accepted).0;
    pushed_facts(p.receivers, p.capacity, client, after.receivers[0].1);
}

proof fn upload_is_a_feed(
    p: PeersV,
    times: spec_fn(int) -> u64,
    client: Seq<char>,
    frames: Seq<NotificationV>,
    accepted: Option<Seq<char>>,
)
    requires
        p.bounded(),
        frames.len() >= 1,
        accepted is Some ==> feed(
            p.receiver(client).transfers,
            p.receiver(client).policy,
            with_accept_time(times, accepted),
            with_accept(frames.take(1), accepted),
        ).1 == Ok::<Option<Seq<char>>, TransferErrorV>(None),
    ensures
        ({
            let (q, outcome) = uploaded(p, times, client, frames, accepted);
            let r = p.receiver(client);
            let (transfers, fed) = feed(
                r.transfers,
                r.policy,
                with_accept_time(times, accepted),
                with_accept(frames, accepted),
            );
            &&& q.bounded()
            &&& q.receiver(client).policy == r.policy
            &&& q.receiver(client).transfers == transfers
            &&& outcome == fed
        }),
    decreases frames.len(),
{
    let r = p.receiver(client);
    let when = with_accept_time(times, accepted);
    let all = with_accept(frames, accepted);
    let init = frames.drop_last();
    let last = frames.last();
    if frames.len() == 1 {
        assert(frames.take(1) =~= frames);
        assert(uploaded(p, times, client, init, accepted) == (
            p,
            Ok::<Option<Seq<char>>, TransferErrorV>(None),
        ));
        fed_receiver(p, times(0), client, last, accepted);
        let one = seq![frames[0]];
        assert(one.drop_last() =~= Seq::<NotificationV>::empty());
        reveal_with_fuel(feed, 3);
        if accepted is Some {
            assert(all.drop_last() =~= one);
        } else {
            assert(all =~= one);
        }
    } else {
        assert(init.take(1) =~= frames.take(1));
        upload_is_a_feed(p, times, client, init, accepted);
        assert(all.drop_last() =~= with_accept(init, accepted));
        assert(all.last() == last);
        let before = uploaded(p, times, client, init, accepted).0;
        fed_receiver(before, times(frames.len() - 1), client, last, None);
    }
}

/// A payload that a client sends in order, and that the server's policy admits, comes out as it
/// went in, with and without a handshake.
pub proof fn upload_comes_out_as_it_went_in(
    p: PeersV,
    times: spec_fn(int) -> u64,
    client: Seq<char>,
    text: Seq<char>,
    token: Seq<char>,
    chunk_size: int,
    handshake: bool,
)
    requires
        p.bounded(),
        token.len() > 0,
        !p.receiver(client).transfers.contains_key(token),
        encode_utf8(text).len() <= p.receiver(client).policy.max_transfer_bytes,
        chunk_texts(text, chunk_size).len() <= p.receiver(client).policy.max_transfer_chunks,
        p.receiver(client).transfers.len() < p.receiver(client).policy.max_concurrent_transfers,
        first_chunk_slot(handshake) + chunk_texts(text, chunk_size).len() <= u64::MAX,
    ensures
        uploaded(
            p,
            times,
            client,
            transfer_frames(text, token, chunk_size, handshake),
            if handshake {
                Some(token)
            } else {
                None
            },
        ).1 == Ok::<Option<Seq<char>>, TransferErrorV>(Some(text)),
{
    let frames = transfer_frames(text, token, chunk_size, handshake);
    let accepted = if handshake {
        Some(token)
    } else {
        None
    };
    let r = p.receiver(client);
    let when = with_accept_time(times, accepted);
    assert(with_accept(frames, accepted) =~= conversation(text, token, chunk_size, handshake));
    assert(with_accept(frames.take(1), accepted) =~= opening(text, token, chunk_size, handshake));
    opening_is_taken(r.transfers, r.policy, when, text, token, chunk_size, handshake);
    transfer_round_trip(r.transfers, r.policy, when, text, token, chunk_size, handshake);
    upload_is_a_feed(p, times, client, frames, accepted);
}

} // verus!
