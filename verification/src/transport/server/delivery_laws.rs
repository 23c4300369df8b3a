//! Where the server's messages go: to whom, in answer to what, and encrypted how.

use vstd::prelude::*;

use super::access::is_authorized;
use super::correlation_store::RouteV;
use super::laws::{
    heard_facts, registered_facts, request_is_answered_where_it_came_from, updated_facts,
};
use super::open_streams::{
    is_due, lists_due, swept_readers, swept_registry, PeerActionV, RoutingV, StreamsV,
};
use super::reply::{event_id_or_zeros, ReplyV};
use super::session_store::{initialized_keys, initialized_keys_facts, new_client_is_fresh};
use super::transport::{
    chunked_replies, client_requested, has_room, is_tool_call, let_in_is_there, request_token_text,
    PreparedV, ResponsePlanV, ServerActionV, ServerInboundV, ServerStateV, SweepActionV,
};
use crate::json::{JsonV, NumberV};
use crate::keys::{is_hex_key, lower_hex};
use crate::lru_cache::{has_key, index_of_key, value_of};
use crate::message::{answered_as_law, MessageV, NotificationV};
use crate::recency_map::{
    entry_found, keys_distinct, mapped, mapped_facts, pushed_facts, retain, retain_lookup,
};
use crate::transport::open_stream::errors::StreamErrorV;
use crate::transport::open_stream::frame::{
    stream_frame_of, stream_notification_round_trip, StreamFrameV,
};
use crate::transport::open_stream::registry::{
    looks_like_stream_frame, route, OpenStreamRegistryPolicy, RegistryV,
};
use crate::transport::open_stream::session::{KeepaliveV, OutcomeV};
use crate::transport::open_stream::writer::{succ, OpV};
use crate::transport::oversized_transfer::constants::ACCEPT_PROGRESS;
use crate::transport::oversized_transfer::frame::{
    frame_of, notification_round_trip, notification_token, param, FrameV,
};
use crate::transport::oversized_transfer::receiver::{looks_oversized, step, ReceiverV};
use crate::transport::routing::{
    address_tags_name_the_peer, first_value, notification_wrap, recipient_tags, response_tags,
    response_wrap,
};
use crate::types::{ClientV, EncryptionMode, GiftWrapMode};

verus! {

/// Whether a reply answers an event of a client the way the event came: to its sender, encrypted
/// exactly if the event was, and in the gift wrap that suits the event's.
pub open spec fn goes_back(r: ReplyV, mode: GiftWrapMode, inbound: ServerInboundV) -> bool {
    &&& r.recipient == lower_hex(inbound.sender)
    &&& first_value(r.tags, "p"@) == Some(lower_hex(inbound.sender))
    &&& r.is_encrypted <==> inbound.wrap_kind is Some
    &&& r.gift_wrap_kind == response_wrap(mode, inbound.wrap_kind is Some, inbound.wrap_kind)
}

/// A response to a request of a client, for each way in which it can leave.
pub open spec fn answers(
    r: ReplyV,
    mode: GiftWrapMode,
    inbound: ServerInboundV,
    id: JsonV,
    response: MessageV,
) -> bool {
    &&& goes_back(r, mode, inbound)
    &&& first_value(r.tags, "e"@) == Some(lower_hex(inbound.event_id))
    &&& r.message.id() == Some(id)
    &&& r.message == response.answered_as(id)
}

/// Whether a transfer is accepted with an event: its sender was not known to support transfers,
/// and opens one.
pub open spec fn opens_as_stranger(s: ServerStateV, inbound: ServerInboundV, m: MessageV) -> bool {
    &&& s.oversized.enabled
    &&& m is Notification
    &&& looks_oversized(m->Notification_0)
    &&& frame_of(m->Notification_0) matches Some(f)
    &&& f is Start
    &&& notification_token(m->Notification_0) is Some
    &&& value_of(s.sessions.entries, inbound.sender) matches Some(c) ==> !c.supports_oversized_transfer
}

/// Whoever opens a transfer without being known to support transfers gets an `accept` for it, and
/// nobody else does: it goes back to the sender the way the `start` frame came, answers that
/// frame's event, and carries its token and the slot after it.
pub proof fn accept_answers_the_start_frame(
    s: ServerStateV,
    now: u64,
    inbound: ServerInboundV,
    m: MessageV,
)
    requires
        s.sessions.bounded(),
        has_room(s.sessions, s.routes, inbound.sender),
        is_authorized(s.allowed, s.excluded, inbound.sender, m),
    ensures
        ({
            let action = s.received(now, inbound, m).2;
            &&& opens_as_stranger(s, inbound, m) && is_hex_key(inbound.sender) ==> (
            action matches ServerActionV::Oversized { accept, .. } && accept is Some)
            &&& action matches ServerActionV::Oversized { accept: Some(r), .. } ==> {
                &&& opens_as_stranger(s, inbound, m)
                &&& goes_back(r, s.gift_wrap, inbound)
                &&& is_hex_key(inbound.event_id) ==> first_value(r.tags, "e"@) == Some(
                    lower_hex(inbound.event_id),
                )
                &&& r.message is Notification
                &&& frame_of(r.message->Notification_0) == Some(FrameV::Accept)
                &&& param(r.message->Notification_0, "progressToken"@) == Some(
                    JsonV::Text(notification_token(m->Notification_0).unwrap()),
                )
                &&& param(r.message->Notification_0, "progress"@) == Some(
                    JsonV::Number(NumberV::Unsigned(2)),
                )
            }
        }),
{
    heard_facts(s, now, inbound);
    fresh_sender(s, now, inbound);
    let action = s.received(now, inbound, m).2;
    if let ServerActionV::Oversized { accept: Some(r), .. } = action {
        let to = lower_hex(inbound.sender);
        let id = event_id_or_zeros(inbound.event_id);
        address_tags_name_the_peer(to, id, Seq::empty());
        notification_round_trip(
            FrameV::Accept,
            notification_token(m->Notification_0).unwrap(),
            ACCEPT_PROGRESS,
            Some("oversized request accepted"@),
        );
    }
}

/// A sender who was not there before is let in with a session that knows nothing of it yet.
pub(crate) proof fn fresh_sender(s: ServerStateV, now: u64, inbound: ServerInboundV)
    requires
        s.sessions.bounded(),
        has_room(s.sessions, s.routes, inbound.sender),
    ensures
        match value_of(s.sessions.entries, inbound.sender) {
            Some(c) => s.sender_before(now, inbound) == c,
            None => s.sender_before(now, inbound) == ClientV::fresh(inbound.is_encrypted(), now),
        },
{
    if !has_key(s.sessions.entries, inbound.sender) {
        new_client_is_fresh(
            s.sessions,
            inbound.sender,
            inbound.is_encrypted(),
            s.routes,
            now,
        );
        let_in_is_there(
            s.sessions,
            s.routes,
            inbound.sender,
            inbound.is_encrypted(),
            now,
        );
    }
}

/// A request that is refused is answered the way it came, in answer to its own event; the first
/// answer to a client also introduces the server, and that it did is noted.
pub proof fn refusal_answers_the_request(
    s: ServerStateV,
    now: u64,
    inbound: ServerInboundV,
    m: MessageV,
)
    requires
        s.sessions.bounded(),
        !is_authorized(s.allowed, s.excluded, inbound.sender, m),
    ensures
        ({
            let (after, _, action) = s.received(now, inbound, m);
            action matches ServerActionV::Denied(Some(r)) ==> {
                &&& m is Request
                &&& s.announced
                &&& goes_back(r, s.gift_wrap, inbound)
                &&& is_hex_key(inbound.event_id) ==> first_value(r.tags, "e"@) == Some(
                    lower_hex(inbound.event_id),
                )
                &&& r.message.id() == m.id()
                &&& r.message is ErrorResponse
                &&& r.message->ErrorResponse_code == -32000
                &&& r.message->ErrorResponse_message == "Unauthorized"@
                &&& r.message->ErrorResponse_jsonrpc == "2.0"@
                &&& value_of(s.sessions.entries, inbound.sender) matches Some(c) ==> (
                value_of(after.sessions.entries, inbound.sender) == Some(
                    ClientV { has_sent_common_tags: true, ..c },
                ))
                &&& (value_of(s.sessions.entries, inbound.sender) matches Some(c)
                    && c.has_sent_common_tags) ==> r.tags.len() == 2
                &&& !(value_of(s.sessions.entries, inbound.sender) matches Some(c)
                    && c.has_sent_common_tags) ==> r.tags.skip(2) == s.snapshot.response_tags()
            }
        }),
{
    let (after, _, action) = s.received(now, inbound, m);
    if let ServerActionV::Denied(Some(r)) = action {
        let to = lower_hex(inbound.sender);
        let id = event_id_or_zeros(inbound.event_id);
        address_tags_name_the_peer(to, id, Seq::empty());
        address_tags_name_the_peer(to, id, s.snapshot.response_tags());
        if let Some(c) = value_of(s.sessions.entries, inbound.sender) {
            updated_facts(s.sessions, inbound.sender, ClientV { has_sent_common_tags: true, ..c });
        }
        assert((response_tags(to, id) + s.snapshot.response_tags()).skip(2)
            =~= s.snapshot.response_tags());
    }
}

/// Every frame that the server sends because of a frame of a client's stream goes back to the
/// client the way that frame came, in answer to its event and under its token: a `pong` with the
/// nonce of the client's probe, or an `accept` of a stream that the client opens.
pub proof fn stream_answers_go_back(
    s: ServerStateV,
    now: u64,
    inbound: ServerInboundV,
    m: MessageV,
    i: int,
)
    requires
        is_authorized(s.allowed, s.excluded, inbound.sender, m),
    ensures
        s.received(now, inbound, m).2 matches ServerActionV::Stream { op, replies } ==> {
            &&& 0 <= i < replies.len() ==> {
                &&& goes_back(replies[i], s.gift_wrap, inbound)
                &&& is_hex_key(inbound.event_id) ==> first_value(replies[i].tags, "e"@) == Some(
                    lower_hex(inbound.event_id),
                )
                &&& replies[i].message is Notification
                &&& param(replies[i].message->Notification_0, "progressToken"@) == Some(
                    JsonV::Text(notification_token(m->Notification_0).unwrap()),
                )
                &&& stream_frame_of(replies[i].message->Notification_0) matches Some(f)
                &&& f is Pong || f is Accept
                &&& f matches StreamFrameV::Pong { nonce } ==> stream_frame_of(m->Notification_0)
                    == Some(StreamFrameV::Ping { nonce })
                &&& f is Accept ==> (stream_frame_of(m->Notification_0) matches Some(g)
                    && g is Start) && s.sender_after(now, inbound).supports_open_stream
            }
            &&& op matches Some((id, o)) ==> {
                &&& replies.len() == 0
                &&& s.streams.slots.contains_key(id)
                &&& s.streams.tokens[notification_token(m->Notification_0).unwrap()] == id
                &&& o matches OpV::Pong(nonce) ==> stream_frame_of(m->Notification_0) == Some(
                    StreamFrameV::Ping { nonce },
                )
                &&& o matches OpV::Abort(reason) ==> stream_frame_of(m->Notification_0) == Some(
                    StreamFrameV::Abort { reason },
                )
                &&& o is Pong || o is Abort
            }
        },
{
    if let ServerActionV::Stream { op, replies } = s.received(now, inbound, m).2 {
        let n = m->Notification_0;
        let h = s.heard(now, inbound);
        let supports = s.sender_after(now, inbound).supports_open_stream;
        if op is None && 0 <= i < replies.len() {
            let accept = match h.streams.routing(n, supports) {
                RoutingV::ReaderThenAccept { token } => Some(token),
                _ => None,
            };
            assert(replies == h.reader_taken(now, inbound, n, accept).1);
            reader_answers_go_back(h, now, inbound, n, accept, i);
        }
    }
}

proof fn control_goes_back(
    s: ServerStateV,
    inbound: ServerInboundV,
    frame: StreamFrameV,
    token: Seq<char>,
)
    ensures
        ({
            let replies = s.control(inbound, Some(frame), Some(token)).1;
            &&& replies.len() == if is_hex_key(inbound.sender) {
                1int
            } else {
                0
            }
            &&& replies.len() == 1 ==> {
                &&& goes_back(replies[0], s.gift_wrap, inbound)
                &&& is_hex_key(inbound.event_id) ==> first_value(replies[0].tags, "e"@) == Some(
                    lower_hex(inbound.event_id),
                )
                &&& replies[0].message is Notification
                &&& stream_frame_of(replies[0].message->Notification_0) == Some(frame)
                &&& param(replies[0].message->Notification_0, "progressToken"@) == Some(
                    JsonV::Text(token),
                )
            }
        }),
{
    let to = lower_hex(inbound.sender);
    address_tags_name_the_peer(to, lower_hex(inbound.event_id), Seq::empty());
    assert(recipient_tags(to) + Seq::<Seq<Seq<char>>>::empty() =~= recipient_tags(to));
    stream_notification_round_trip(
        frame,
        token,
        succ(s.streams.control_progress),
        None,
    );
}

proof fn reader_answers_go_back(
    s: ServerStateV,
    now: u64,
    inbound: ServerInboundV,
    n: NotificationV,
    accept: Option<Seq<char>>,
    i: int,
)
    requires
        accept is Some ==> accept == notification_token(n),
        0 <= i < s.reader_taken(now, inbound, n, accept).1.len(),
    ensures
        ({
            let r = s.reader_taken(now, inbound, n, accept).1[i];
            &&& goes_back(r, s.gift_wrap, inbound)
            &&& is_hex_key(inbound.event_id) ==> first_value(r.tags, "e"@) == Some(
                lower_hex(inbound.event_id),
            )
            &&& r.message is Notification
            &&& notification_token(n) matches Some(t)
            &&& param(r.message->Notification_0, "progressToken"@) == Some(JsonV::Text(t))
            &&& stream_frame_of(r.message->Notification_0) matches Some(f)
            &&& f is Accept ==> accept is Some
            &&& f is Accept || (f is Pong && stream_frame_of(n) == Some(
                StreamFrameV::Ping { nonce: f->Pong_nonce },
            ))
        }),
{
    let (streams, routed) = s.streams.fed(now, inbound.sender, n);
    let s0 = ServerStateV { streams, ..s };
    if let Ok(OutcomeV::SendPong(nonce)) = routed.result {
        pong_answers_ping(s.streams.reader(inbound.sender), now, n, nonce);
        if let Some(t) = notification_token(n) {
            control_goes_back(s0, inbound, StreamFrameV::Pong { nonce }, t);
            let s1 = s0.control(inbound, Some(StreamFrameV::Pong { nonce }), Some(t)).0;
            control_goes_back(s1, inbound, StreamFrameV::Accept, t);
        }
    } else if let Some(t) = notification_token(n) {
        control_goes_back(s0, inbound, StreamFrameV::Accept, t);
    }
}

proof fn pong_answers_ping(
    r: RegistryV,
    now: u64,
    n: NotificationV,
    nonce: Seq<char>,
)
    requires
        route(r, now, n).1.result == Ok::<
            OutcomeV,
            StreamErrorV,
        >(OutcomeV::SendPong(nonce)),
    ensures
        stream_frame_of(n) == Some(StreamFrameV::Ping { nonce }),
{
}

/// A call of a tool with a progress token gets a writer if open streams are on; no other request
/// gets one.
pub proof fn tool_calls_get_a_writer(
    s: ServerStateV,
    now: u64,
    inbound: ServerInboundV,
    m: MessageV,
)
    requires
        is_authorized(s.allowed, s.excluded, inbound.sender, m),
        m is Request,
        is_hex_key(inbound.sender),
        is_hex_key(inbound.event_id),
    ensures
        ({
            let t = s.received(now, inbound, m).0;
            let gets = s.streams.enabled && m.method() == Some("tools/call"@)
                && request_token_text(m) is Some;
            &&& gets ==> t.streams.slots.contains_key(inbound.event_id)
            &&& !gets ==> t.streams.slots == s.streams.slots
            &&& gets ==> {
                let slot = t.streams.slots[inbound.event_id];
                &&& slot.writer.token == request_token_text(m).unwrap()
                &&& slot.writer.active && !slot.writer.started
                &&& slot.pending is None && !slot.terminated
                &&& t.streams.writer_event(request_token_text(m)) == Some(inbound.event_id)
            }
            &&& forall|other: Seq<char>|
                other != inbound.event_id && s.streams.slots.contains_key(other)
                    ==> #[trigger] t.streams.slots.contains_key(other) && t.streams.slots[other]
                    == s.streams.slots[other]
        }),
{
}

/// The response to a request that has streamed goes back the way the request came, under the
/// client's own id for it, whether it was held back until the stream ended or came after that. So
/// does every frame of the stream.
pub proof fn streamed_request_is_answered_where_it_came_from(
    s: ServerStateV,
    now: u64,
    inbound: ServerInboundV,
    m: MessageV,
    frame: NotificationV,
    response: MessageV,
)
    requires
        s.streams.enabled,
        is_authorized(s.allowed, s.excluded, inbound.sender, m),
        is_tool_call(m),
        request_token_text(m) is Some,
        response.is_response(),
        is_hex_key(inbound.sender),
        is_hex_key(inbound.event_id),
    ensures
        ({
            let id = m.id().unwrap();
            let event_id = inbound.event_id;
            let t = s.received(now, inbound, m).0.stream_started(event_id);
            let (held, first) = t.response_plan(event_id, response);
            let (ended, early) = t.stream_ended(event_id);
            &&& t.streams.writer_reply(t.gift_wrap, event_id, frame) matches Some(r)
            &&& goes_back(r, s.gift_wrap, inbound)
            &&& first_value(r.tags, "e"@) == Some(lower_hex(event_id))
            &&& r.message == MessageV::Notification(frame)
            &&& first == ResponsePlanV::Deferred
            &&& held.stream_ended(event_id).1 matches Some(Ok(x))
            &&& answers(x, s.gift_wrap, inbound, id, response)
            &&& held.stream_ended(event_id).0.stream_ended(event_id).1 is None
            &&& early is None
            &&& ended.response_plan(event_id, response).1 matches ResponsePlanV::Reply(y)
            &&& answers(y, s.gift_wrap, inbound, id, response)
        }),
{
    let to = lower_hex(inbound.sender);
    address_tags_name_the_peer(to, lower_hex(inbound.event_id), Seq::empty());
    answered_as_law(response, m->Request_id, m->Request_id);
}

/// A call of a tool whose handler never streams is answered like any other request.
pub proof fn unstreamed_call_is_answered_where_it_came_from(
    s: ServerStateV,
    now: u64,
    inbound: ServerInboundV,
    m: MessageV,
    response: MessageV,
)
    requires
        s.sessions.bounded(),
        s.routes.bounded(),
        has_room(s.sessions, s.routes, inbound.sender),
        is_authorized(s.allowed, s.excluded, inbound.sender, m),
        m is Request,
        response.is_response(),
        is_hex_key(inbound.sender),
        is_hex_key(inbound.event_id),
        !s.streams.slots.contains_key(inbound.event_id),
    ensures
        ({
            let t = s.received(now, inbound, m).0;
            &&& t.response_plan(inbound.event_id, response).1 matches ResponsePlanV::Send(p)
            &&& p.recipient == lower_hex(inbound.sender)
            &&& first_value(p.tags, "p"@) == Some(lower_hex(inbound.sender))
            &&& first_value(p.tags, "e"@) == Some(lower_hex(inbound.event_id))
            &&& first_value(p.base_tags, "p"@) == Some(lower_hex(inbound.sender))
            &&& first_value(p.base_tags, "e"@) == Some(lower_hex(inbound.event_id))
            &&& p.response.id() == m.id()
            &&& p.is_encrypted <==> inbound.wrap_kind is Some
            &&& p.gift_wrap_kind == response_wrap(
                s.gift_wrap,
                inbound.wrap_kind is Some,
                inbound.wrap_kind,
            )
            &&& p.oversized_token == (if s.oversized.enabled && s.sender_after(
                now,
                inbound,
            ).supports_oversized_transfer {
                request_token_text(m)
            } else {
                None
            })
            &&& p.event_id == inbound.event_id
            &&& p.route.client_pubkey == inbound.sender
            &&& p.route.original_request_id == m.id().unwrap()
            &&& p.route.progress_token == request_token_text(m)
            &&& p.tags == p.base_tags + (if s.sender_before(now, inbound).has_sent_common_tags {
                Seq::<Seq<Seq<char>>>::empty()
            } else {
                s.manager.common_tags()
            })
        }),
{
    request_is_answered_where_it_came_from(s, now, inbound, m, response);
    heard_facts(s, now, inbound);
    let h = s.heard(now, inbound);
    let c = s.sender_after(now, inbound);
    let token = request_token_text(m);
    let noted = client_requested(c, inbound.event_id, m->Request_id, token);
    updated_facts(h.sessions, inbound.sender, noted);
    let route = RouteV {
        client_pubkey: inbound.sender,
        original_request_id: m->Request_id,
        progress_token: token,
        wrap_kind: None,
        registered_at: now,
    };
    registered_facts(s.routes, inbound.event_id, route);
    let t = s.received(now, inbound, m).0;
    assert(value_of(t.routes.routes, inbound.event_id) == Some(route));
    assert(value_of(t.sessions.entries, inbound.sender) == Some(noted));
    let p = t.response_plan(inbound.event_id, response).1->Send_0;
    let to = lower_hex(inbound.sender);
    let id = lower_hex(inbound.event_id);
    let base = response_tags(to, id);
    address_tags_name_the_peer(to, id, Seq::empty());
    address_tags_name_the_peer(to, id, p.tags.skip(2));
    assert(p.base_tags == base);
    assert(p.tags =~= base + p.tags.skip(2));
}

/// A response along the route of a request that came in chunks goes out the way the client was
/// last heard, under the client's own id, in the gift wrap that suits the one that carried the
/// last chunk.
pub proof fn reassembled_request_is_answered_as_it_came(
    s: ServerStateV,
    now: u64,
    inbound: ServerInboundV,
    token: Option<Seq<char>>,
    m: MessageV,
    response: MessageV,
    c: ClientV,
)
    requires
        s.sessions.bounded(),
        s.routes.bounded(),
        value_of(s.sessions.entries, inbound.sender) == Some(c),
        m is Request,
        response.is_response(),
        is_hex_key(inbound.sender),
        is_hex_key(inbound.event_id),
        !s.streams.slots.contains_key(inbound.event_id),
    ensures
        ({
            let (t, incoming) = s.reassembled(now, inbound, token, m);
            &&& incoming.client_pubkey == inbound.sender
            &&& incoming.event_id == inbound.event_id
            &&& incoming.is_encrypted <==> inbound.wrap_kind is Some
            &&& t.response_plan(inbound.event_id, response).1 matches ResponsePlanV::Send(p)
            &&& p.response == response.answered_as(m.id().unwrap())
            &&& p.recipient == lower_hex(inbound.sender)
            &&& first_value(p.tags, "p"@) == Some(lower_hex(inbound.sender))
            &&& first_value(p.tags, "e"@) == Some(lower_hex(inbound.event_id))
            &&& p.is_encrypted == c.is_encrypted
            &&& p.gift_wrap_kind == response_wrap(s.gift_wrap, c.is_encrypted, inbound.wrap_kind)
        }),
{
    let route = RouteV {
        client_pubkey: inbound.sender,
        original_request_id: m->Request_id,
        progress_token: token,
        wrap_kind: None,
        registered_at: now,
    };
    registered_facts(s.routes, inbound.event_id, route);
    let t = s.reassembled(now, inbound, token, m).0;
    assert(value_of(t.routes.routes, inbound.event_id) == Some(route));
    let p = t.response_plan(inbound.event_id, response).1->Send_0;
    let to = lower_hex(inbound.sender);
    let id = lower_hex(inbound.event_id);
    address_tags_name_the_peer(to, id, p.tags.skip(2));
    assert(p.tags =~= response_tags(to, id) + p.tags.skip(2));
}

/// A response can only be sent while its request is waiting for one and its client is there.
pub proof fn responses_need_a_route_and_a_client(
    s: ServerStateV,
    event_id: Seq<char>,
    response: MessageV,
)
    requires
        !s.streams.slots.contains_key(event_id),
    ensures
        ({
            let plan = s.response_plan(event_id, response).1;
            &&& plan is Send <==> (value_of(s.routes.routes, event_id) matches Some(route)
                && has_key(s.sessions.entries, route.client_pubkey) && is_hex_key(
                route.client_pubkey,
            ) && is_hex_key(event_id))
            &&& plan is Send || plan is Fail
            &&& value_of(s.routes.routes, event_id) is None ==> s.response_plan(event_id, response).0
                == s
        }),
{
    assert(ServerStateV { streams: s.streams, ..s } == s);
}

/// The frames of a response that goes out in chunks go where the response would: all of them to its
/// client, in answer to its request and encrypted as it is; only the first one may introduce the
/// server.
pub proof fn chunks_go_where_the_response_goes(p: PreparedV, frames: Seq<NotificationV>, i: int)
    requires
        0 <= i < frames.len(),
    ensures
        ({
            let r = chunked_replies(p, frames)[i];
            &&& chunked_replies(p, frames).len() == frames.len()
            &&& r.message == MessageV::Notification(frames[i])
            &&& r.recipient == p.recipient
            &&& r.is_encrypted == p.is_encrypted
            &&& r.gift_wrap_kind == p.gift_wrap_kind
            &&& i == 0 ==> r.tags == p.tags
            &&& i > 0 ==> r.tags == p.base_tags
        }),
{
}

/// A notification for a client that is there goes to that client as it is, encrypted as the client
/// was last heard. One that belongs to a request says which, and travels in the gift wrap that
/// suits the request's; the first message to a client also introduces the server.
pub proof fn notification_reaches_its_client(
    s: ServerStateV,
    client: Seq<char>,
    m: MessageV,
    correlated: Option<Seq<char>>,
    c: ClientV,
)
    requires
        s.sessions.bounded(),
        value_of(s.sessions.entries, client) == Some(c),
        is_hex_key(client),
        correlated matches Some(id) ==> is_hex_key(id),
    ensures
        ({
            let (after, plan) = s.notification_plan(client, m, correlated);
            &&& plan matches Ok(r)
            &&& r.message == m
            &&& r.recipient == lower_hex(client)
            &&& first_value(r.tags, "p"@) == Some(lower_hex(client))
            &&& correlated matches Some(id) ==> first_value(r.tags, "e"@) == Some(lower_hex(id))
            &&& correlated is None && c.has_sent_common_tags ==> first_value(r.tags, "e"@) is None
            &&& r.is_encrypted == c.is_encrypted
            &&& r.gift_wrap_kind == notification_wrap(
                s.gift_wrap,
                c.is_encrypted,
                match correlated {
                    Some(id) => if s.wrap_kinds.contains_key(id) {
                        s.wrap_kinds[id]
                    } else {
                        None
                    },
                    None => None,
                },
                c.supports_ephemeral_gift_wrap,
            )
            &&& c.has_sent_common_tags ==> r.tags.len() <= 2
            &&& !c.has_sent_common_tags ==> (correlated is Some ==> r.tags.skip(2)
                == s.manager.common_tags()) && (correlated is None ==> r.tags.skip(1)
                == s.manager.common_tags())
            &&& value_of(after.sessions.entries, client) == Some(
                ClientV { has_sent_common_tags: true, ..c },
            )
            &&& after.routes == s.routes
        }),
{
    let to = lower_hex(client);
    let more = s.introduction(c);
    updated_facts(s.sessions, client, ClientV { has_sent_common_tags: true, ..c });
    let id = match correlated {
        Some(id) => lower_hex(id),
        None => Seq::empty(),
    };
    address_tags_name_the_peer(to, id, more);
    address_tags_name_the_peer(to, id, Seq::empty());
    assert((recipient_tags(to) + more).skip(1) =~= more);
    assert((response_tags(to, id) + more).skip(2) =~= more);
    if c.has_sent_common_tags {
        assert(recipient_tags(to) + more =~= recipient_tags(to));
    }
}

/// A notification for somebody who is not there, or whose key is no key, goes nowhere.
pub proof fn notification_needs_a_client(
    s: ServerStateV,
    client: Seq<char>,
    m: MessageV,
    correlated: Option<Seq<char>>,
)
    ensures
        s.notification_plan(client, m, correlated).1 is Ok <==> has_key(
            s.sessions.entries,
            client,
        ) && is_hex_key(client) && (correlated matches Some(id) ==> is_hex_key(id)),
        !has_key(s.sessions.entries, client) ==> s.notification_plan(client, m, correlated).0 == s,
{
}

/// The clients that have opened a session are those, and only those, that a broadcast is for; each
/// is so once.
pub proof fn broadcast_is_for_initialized_clients(
    entries: Seq<(Seq<char>, ClientV)>,
    client: Seq<char>,
)
    requires
        keys_distinct(entries),
    ensures
        initialized_keys(entries).contains(client) <==> (value_of(entries, client) matches Some(c)
            && c.is_initialized),
        initialized_keys(entries).no_duplicates(),
    decreases entries.len(),
{
    initialized_keys_facts(entries);
    if has_key(entries, client) {
        let i = index_of_key(entries, client);
        assert(entries[i].0 == client);
        if initialized_keys(entries).contains(client) {
            let j = choose|j: int|
                0 <= j < entries.len() && (#[trigger] entries[j]).0 == client
                    && entries[j].1.is_initialized;
            assert(i == j);
        }
    }
}

/// A broadcast sends the notification as it is to each of the clients once, in their order, and to
/// nobody else.
pub proof fn broadcast_reaches_each_client(s: ServerStateV, clients: Seq<Seq<char>>, m: MessageV)
    requires
        s.sessions.bounded(),
        forall|i: int|
            0 <= i < clients.len() ==> is_hex_key(#[trigger] clients[i]) && has_key(
                s.sessions.entries,
                clients[i],
            ),
    ensures
        ({
            let (after, replies) = s.broadcast(clients, m);
            &&& replies.len() == clients.len()
            &&& forall|i: int|
                0 <= i < clients.len() ==> (#[trigger] replies[i]).message == m
                    && replies[i].recipient == lower_hex(clients[i]) && first_value(
                    replies[i].tags,
                    "p"@,
                ) == Some(lower_hex(clients[i])) && replies[i].is_encrypted == value_of(
                    s.sessions.entries,
                    clients[i],
                ).unwrap().is_encrypted
            &&& keys_distinct(after.sessions.entries)
            &&& after.routes == s.routes
            &&& forall|k: Seq<char>| #[trigger]
                value_of(after.sessions.entries, k) == (match value_of(s.sessions.entries, k) {
                    Some(c) => Some(
                        ClientV {
                            has_sent_common_tags: c.has_sent_common_tags || clients.contains(k),
                            ..c
                        },
                    ),
                    None => None,
                })
        }),
    decreases clients.len(),
{
    if clients.len() > 0 {
        let init = clients.drop_last();
        assert(forall|i: int| 0 <= i < init.len() ==> init[i] == #[trigger] clients[i]);
        broadcast_reaches_each_client(s, init, m);
        let (t, replies) = s.broadcast(init, m);
        let last = clients.last();
        assert(clients[clients.len() - 1] == last);
        let c = value_of(t.sessions.entries, last).unwrap();
        let to = lower_hex(last);
        address_tags_name_the_peer(to, Seq::empty(), t.introduction(c));
        updated_facts(t.sessions, last, ClientV { has_sent_common_tags: true, ..c });
        assert forall|k: Seq<char>| clients.contains(k) <==> init.contains(k) || k == last by {
            if init.contains(k) {
                assert(clients[init.index_of(k)] == k);
            }
            if clients.contains(k) && k != last {
                assert(init[clients.index_of(k)] == k);
            }
        }
    } else {
        assert forall|k: Seq<char>| #[trigger]
            value_of(s.sessions.entries, k) == (match value_of(s.sessions.entries, k) {
                Some(c) => Some(
                    ClientV {
                        has_sent_common_tags: c.has_sent_common_tags || clients.contains(k),
                        ..c
                    },
                ),
                None => None,
            }) by {}
    }
}

/// A probe of a silent stream goes to its client under the stream's token with the probe's nonce,
/// encrypted unless the server does not encrypt; a stream that is given up aborts the writer that
/// owns its token, for that reason.
pub proof fn keepalive_reaches_its_peer(s: ServerStateV, a: PeerActionV)
    ensures
        ({
            let (after, out) = s.kept_alive(a);
            match a.action {
                KeepaliveV::SendPing(nonce) => is_hex_key(
                    a.peer,
                ) ==> {
                    &&& out.len() == 1
                    &&& out[0] matches SweepActionV::Send(r)
                    &&& r.recipient == lower_hex(a.peer)
                    &&& first_value(r.tags, "p"@) == Some(lower_hex(a.peer))
                    &&& r.is_encrypted <==> s.encryption != EncryptionMode::Disabled
                    &&& r.gift_wrap_kind == response_wrap(
                        s.gift_wrap,
                        s.encryption != EncryptionMode::Disabled,
                        None,
                    )
                    &&& r.message is Notification
                    &&& stream_frame_of(r.message->Notification_0) == Some(
                        StreamFrameV::Ping { nonce },
                    )
                    &&& param(r.message->Notification_0, "progressToken"@) == Some(
                        JsonV::Text(a.token),
                    )
                    &&& s.streams.tokens.contains_key(a.token) && is_hex_key(
                        s.streams.tokens[a.token],
                    ) ==> first_value(r.tags, "e"@) == Some(
                        lower_hex(s.streams.tokens[a.token]),
                    )
                    &&& !s.streams.tokens.contains_key(a.token) ==> first_value(r.tags, "e"@)
                        is None
                },
                KeepaliveV::Abort(reason) => {
                    &&& after == s
                    &&& s.streams.tokens.contains_key(a.token) && s.streams.slots.contains_key(
                        s.streams.tokens[a.token],
                    ) ==> out == seq![
                        SweepActionV::Write(
                            s.streams.tokens[a.token],
                            OpV::Abort(Some(reason)),
                        ),
                    ]
                },
                _ => out.len() == 0 && after == s,
            }
        }),
{
    if let KeepaliveV::SendPing(nonce) = a.action {
        let to = lower_hex(a.peer);
        let id = if s.streams.tokens.contains_key(a.token) {
            lower_hex(s.streams.tokens[a.token])
        } else {
            Seq::empty()
        };
        address_tags_name_the_peer(to, id, Seq::empty());
        assert(recipient_tags(to) + Seq::<Seq<Seq<char>>>::empty() =~= recipient_tags(to));
        stream_notification_round_trip(
            StreamFrameV::Ping { nonce },
            a.token,
            succ(s.streams.control_progress),
            None,
        );
    }
}

/// A probe and an abort from a client reach the writer that owns their token, where there is one;
/// every other frame reaches the client's own reader, and no other client's.
pub proof fn frames_reach_their_end(
    s: ServerStateV,
    now: u64,
    inbound: ServerInboundV,
    m: MessageV,
    other: Seq<char>,
)
    requires
        s.streams.bounded(),
        is_authorized(s.allowed, s.excluded, inbound.sender, m),
        s.streams.enabled,
        m is Notification,
        looks_like_stream_frame(m->Notification_0),
        !(s.oversized.enabled && looks_oversized(m->Notification_0)),
    ensures
        ({
            let n = m->Notification_0;
            let (after, _, action) = s.received(now, inbound, m);
            let owner = match notification_token(n) {
                Some(t) => if s.streams.tokens.contains_key(t) && s.streams.slots.contains_key(
                    s.streams.tokens[t],
                ) {
                    Some(s.streams.tokens[t])
                } else {
                    None
                },
                None => None,
            };
            let to_writer = owner is Some && (stream_frame_of(n) matches Some(f) && (f is Ping
                || f is Abort));
            &&& to_writer <==> (action matches ServerActionV::Stream { op, .. } && op is Some)
            &&& action matches ServerActionV::Stream { op: Some((id, o)), .. } ==> Some(id) == owner
            &&& to_writer ==> after.streams == s.streams
            &&& !to_writer ==> {
                &&& after.streams.reader(inbound.sender)
                    == route(
                    s.streams.reader(inbound.sender),
                    now,
                    n,
                ).0
                &&& other != inbound.sender && (s.streams.readers.len() < s.streams.capacity
                    || has_key(s.streams.readers, inbound.sender)) ==> after.streams.reader(other)
                    == s.streams.reader(other)
            }
        }),
{
    let n = m->Notification_0;
    let r = route(
        s.streams.reader(inbound.sender),
        now,
        n,
    ).0;
    pushed_facts(s.streams.readers, s.streams.capacity, inbound.sender, r);
    let h = s.heard(now, inbound);
    let supports = s.sender_after(now, inbound).supports_open_stream;
    let after = s.received(now, inbound, m).0;
    if let RoutingV::Writer { .. } = h.streams.routing(n, supports) {
    } else {
        let accept = match h.streams.routing(n, supports) {
            RoutingV::ReaderThenAccept { token } => Some(token),
            _ => None,
        };
        assert(after == h.reader_taken(now, inbound, n, accept).0);
        assert(after.streams.readers == s.streams.fed(now, inbound.sender, n).0.readers);
        assert(after.streams.policy == s.streams.policy);
    }
}

/// A frame of a transfer reaches the transfers of its own sender, and no other client's; a payload
/// that is complete is handed on with its token.
pub proof fn transfers_are_kept_apart(
    s: ServerStateV,
    now: u64,
    inbound: ServerInboundV,
    m: MessageV,
    other: Seq<char>,
)
    requires
        s.peers.bounded(),
        is_authorized(s.allowed, s.excluded, inbound.sender, m),
        s.oversized.enabled,
        m is Notification,
        looks_oversized(m->Notification_0),
        !opens_as_stranger(s, inbound, m),
        s.sessions.bounded(),
        has_room(s.sessions, s.routes, inbound.sender),
    ensures
        ({
            let n = m->Notification_0;
            let (after, _, action) = s.received(now, inbound, m);
            let mine = s.peers.receiver(inbound.sender);
            let (transfers, outcome) = step(
                mine.transfers,
                mine.policy,
                now,
                n,
            );
            &&& after.peers.receiver(inbound.sender).transfers == transfers
            &&& after.peers.receiver(inbound.sender).policy == mine.policy
            &&& other != inbound.sender && (s.peers.receivers.len() < s.peers.capacity || has_key(
                s.peers.receivers,
                inbound.sender,
            )) ==> after.peers.receiver(other) == s.peers.receiver(other)
            &&& action matches ServerActionV::Oversized { payload, .. } && payload == (
            match outcome {
                Ok(Some(text)) => Some((text, notification_token(n))),
                _ => None,
            })
            &&& after.routes == s.routes && after.streams == s.streams
        }),
{
    heard_facts(s, now, inbound);
    fresh_sender(s, now, inbound);
    let n = m->Notification_0;
    let mine = s.peers.receiver(inbound.sender);
    let transfers = step(
        mine.transfers,
        mine.policy,
        now,
        n,
    ).0;
    let r = ReceiverV { transfers, ..mine };
    pushed_facts(s.peers.receivers, s.peers.capacity, inbound.sender, r);
}

/// A call of a tool that came in chunks gets a writer like any other, and the response to it, and
/// every frame of its stream, goes back the way its last chunk came.
pub proof fn reassembled_call_may_stream(
    s: ServerStateV,
    now: u64,
    inbound: ServerInboundV,
    token: Option<Seq<char>>,
    m: MessageV,
    frame: NotificationV,
    response: MessageV,
)
    requires
        s.streams.enabled,
        m is Request,
        response.is_response(),
        is_hex_key(inbound.sender),
        is_hex_key(inbound.event_id),
    ensures
        ({
            let event_id = inbound.event_id;
            let t = s.reassembled(now, inbound, token, m).0;
            let gets = m.method() == Some("tools/call"@) && request_token_text(m) is Some;
            let u = t.stream_started(event_id);
            let (held, first) = u.response_plan(event_id, response);
            &&& !gets ==> t.streams.slots == s.streams.slots
            &&& gets ==> {
                &&& t.streams.slots[event_id].writer.token == request_token_text(m).unwrap()
                &&& u.streams.writer_reply(u.gift_wrap, event_id, frame) matches Some(r)
                &&& goes_back(r, s.gift_wrap, inbound)
                &&& first == ResponsePlanV::Deferred
                &&& held.stream_ended(event_id).1 matches Some(Ok(x))
                &&& answers(x, s.gift_wrap, inbound, m.id().unwrap(), response)
            }
        }),
{
    let to = lower_hex(inbound.sender);
    address_tags_name_the_peer(to, lower_hex(inbound.event_id), Seq::empty());
    answered_as_law(response, m->Request_id, m->Request_id);
}

/// Why a response or a notification cannot be sent is said: that nobody waits for it, or that its
/// client is not there.
pub proof fn failures_name_what_is_missing(
    s: ServerStateV,
    event_id: Seq<char>,
    response: MessageV,
    client: Seq<char>,
    m: MessageV,
    correlated: Option<Seq<char>>,
)
    requires
        !s.streams.slots.contains_key(event_id),
    ensures
        value_of(s.routes.routes, event_id) is None ==> s.response_plan(event_id, response).1
            == ResponsePlanV::Fail("No client found for event "@ + event_id),
        value_of(s.routes.routes, event_id) matches Some(route) ==> (!has_key(
            s.sessions.entries,
            route.client_pubkey,
        ) ==> s.response_plan(event_id, response).1 == ResponsePlanV::Fail(
            "No session for client "@ + route.client_pubkey,
        )),
        !has_key(s.sessions.entries, client) ==> s.notification_plan(client, m, correlated).1
            == Err::<ReplyV, Seq<char>>("No session for "@ + client),
{
}

/// The control frames of the server are numbered: each carries the number after the last one's.
pub proof fn control_frames_are_numbered(
    s: StreamsV,
    mode: GiftWrapMode,
    frame: StreamFrameV,
    token: Seq<char>,
    recipient: Seq<char>,
    correlated: Option<Seq<char>>,
    is_encrypted: bool,
    wrap_kind: Option<u16>,
)
    requires
        is_hex_key(recipient),
        s.control_progress < u64::MAX,
    ensures
        ({
            let (after, out) = s.control_frame(
                mode,
                frame,
                token,
                recipient,
                correlated,
                is_encrypted,
                wrap_kind,
            );
            &&& after.control_progress == s.control_progress + 1
            &&& out matches Some(r)
            &&& r.message is Notification
            &&& param(r.message->Notification_0, "progress"@) == Some(
                JsonV::Number(NumberV::Unsigned((s.control_progress + 1) as u64)),
            )
            &&& after.slots == s.slots && after.readers == s.readers
        }),
{
    stream_notification_round_trip(
        frame,
        token,
        succ(s.control_progress),
        None,
    );
}

/// A client that supports open streams gets an `accept` for every stream that it opens; and a probe
/// of a stream that the server reads is answered.
pub proof fn streams_are_accepted_and_probes_answered(
    s: ServerStateV,
    now: u64,
    inbound: ServerInboundV,
    m: MessageV,
    t: Seq<char>,
)
    requires
        is_authorized(s.allowed, s.excluded, inbound.sender, m),
        s.streams.enabled,
        m is Notification,
        looks_like_stream_frame(m->Notification_0),
        !(s.oversized.enabled && looks_oversized(m->Notification_0)),
        is_hex_key(inbound.sender),
        notification_token(m->Notification_0) == Some(t),
    ensures
        ({
            let n = m->Notification_0;
            let action = s.received(now, inbound, m).2;
            let routed = route(
                s.streams.reader(inbound.sender),
                now,
                n,
            ).1;
            &&& (stream_frame_of(n) matches Some(f) && f is Start) && s.sender_after(
                now,
                inbound,
            ).supports_open_stream ==> (action matches ServerActionV::Stream { op, replies }
                && op is None && replies.len() > 0 && stream_frame_of(
                replies.last().message->Notification_0,
            ) == Some(StreamFrameV::Accept))
            &&& (stream_frame_of(n) matches Some(f) && f is Ping) && s.streams.writer_event(Some(t))
                is None && routed.result is Ok ==> (action matches ServerActionV::Stream {
                op,
                replies,
            } && op is None && replies.len() == 1 && stream_frame_of(
                replies[0].message->Notification_0,
            ) == Some(StreamFrameV::Pong { nonce: stream_frame_of(n).unwrap()->Ping_nonce }))
        }),
{
    let n = m->Notification_0;
    let h = s.heard(now, inbound);
    let (streams, routed) = h.streams.fed(now, inbound.sender, n);
    let s0 = ServerStateV { streams, ..h };
    control_goes_back(s0, inbound, StreamFrameV::Accept, t);
    if let Ok(OutcomeV::SendPong(nonce)) = routed.result {
        pong_answers_ping(h.streams.reader(inbound.sender), now, n, nonce);
        control_goes_back(s0, inbound, StreamFrameV::Pong { nonce }, t);
        let s1 = s0.control(inbound, Some(StreamFrameV::Pong { nonce }), Some(t)).0;
        control_goes_back(s1, inbound, StreamFrameV::Accept, t);
    }
    if let (Some(StreamFrameV::Ping { nonce }), true) = (stream_frame_of(n), routed.result is Ok) {
        ping_asks_for_pong(h.streams.reader(inbound.sender), now, n, nonce);
    }
}

proof fn ping_asks_for_pong(
    r: RegistryV,
    now: u64,
    n: NotificationV,
    nonce: Seq<char>,
)
    requires
        stream_frame_of(n) == Some(StreamFrameV::Ping { nonce }),
        route(r, now, n).1.result is Ok,
    ensures
        route(r, now, n).1.result == Ok::<
            OutcomeV,
            StreamErrorV,
        >(OutcomeV::SendPong(nonce)),
{
}

/// A sweep ticks every stream that clients have open, each once: what a tick asks for is listed
/// with its client and its token, and nothing else is. The streams that it gives up are gone, and
/// so are clients without any.
pub proof fn sweep_ticks_every_stream(
    readers: Seq<(Seq<char>, RegistryV)>,
    due: Seq<PeerActionV>,
    now: u64,
    a: PeerActionV,
)
    requires
        keys_distinct(readers),
        lists_due(due, readers, now),
    ensures
        ({
            let before = value_of(readers, a.peer);
            let after = value_of(swept_readers(readers, now), a.peer);
            let open = before matches Some(r) && r.sessions.contains_key(a.token);
            let ticked = before.unwrap().sessions[a.token].ticked(now);
            &&& due.contains(a) <==> open && ticked.1 == a.action && !(a.action
                is Nothing)
            &&& after matches Some(r) ==> before is Some && r.sessions.len() > 0 && (
            r.sessions.contains_key(a.token) <==> open && !(ticked.1 is Abort))
            &&& after matches Some(r) ==> (r.sessions.contains_key(a.token) ==> r.sessions[a.token]
                == ticked.0)
            &&& open && !(ticked.1 is Abort) && before.unwrap().sessions.dom().finite()
                ==> after is Some
        }),
{
    let f = |r: RegistryV|
        swept_registry(r, now);
    let keep = |e: (Seq<char>, RegistryV)|
        e.1.sessions.len() > 0;
    if let Some(r) = value_of(readers, a.peer) {
        mapped_facts(readers, f, readers.len(), a.peer, r);
        let i = index_of_key(readers, a.peer);
        assert(readers[i].0 == a.peer && readers[i].1 == r);
        let kept = f(r).sessions;
        if kept.contains_key(a.token) && r.sessions.dom().finite() {
            assert(kept.dom().subset_of(r.sessions.dom()));
            vstd::set_lib::lemma_len_subset(kept.dom(), r.sessions.dom());
            assert(kept.dom().contains(a.token));
            assert(kept.dom().len() > 0);
        }
    } else {
        mapped_facts(
            readers,
            f,
            readers.len(),
            a.peer,
            RegistryV {
                policy: OpenStreamRegistryPolicy::standard(),
                sessions: Map::empty(),
            },
        );
    }
    let all = mapped(readers, f);
    retain_lookup(all, keep, a.peer);
    assert(swept_readers(readers, now) == retain(
        all,
        keep,
    ));
    assert(due.contains(a) <==> is_due(readers, now, a));
    if is_due(readers, now, a) {
        let j = choose|j: int|
            0 <= j < readers.len() && (#[trigger] readers[j]).0 == a.peer
                && readers[j].1.sessions.contains_key(a.token)
                && readers[j].1.sessions[a.token].ticked(now).1 == a.action && !(a.action
                is Nothing);
        entry_found(readers, j);
    }
}

/// A client that is new to transfers or streams starts out without any, within the limits that are
/// configured.
pub proof fn newcomers_get_the_configured_limits(s: ServerStateV, client: Seq<char>, k: Seq<char>)
    ensures
        !has_key(s.peers.receivers, client) ==> s.peers.receiver(client).policy == s.peers.policy
            && !s.peers.receiver(client).transfers.contains_key(k),
        !has_key(s.streams.readers, client) ==> s.streams.reader(client).policy == s.streams.policy
            && !s.streams.reader(client).sessions.contains_key(k),
        value_of(s.peers.receivers, client) matches Some(r) ==> s.peers.receiver(client) == r,
        value_of(s.streams.readers, client) matches Some(r) ==> s.streams.reader(client) == r,
{
}

/// An operation of the writer of an event changes that writer only: where its response goes, whether
/// one is held back and whether the stream has ended stay as they are, and so do all other writers.
/// A chunk that was published is counted, and the end of the stream is told.
pub proof fn writers_are_kept_apart(
    s: ServerStateV,
    event_id: Seq<char>,
    op: OpV,
    published: bool,
    other: Seq<char>,
)
    requires
        s.streams.slots.contains_key(event_id),
    ensures
        ({
            let before = s.streams.slots[event_id];
            let (next, _) = before.writer.step(op);
            let stepped = s.with_slot_writer(event_id, next).streams.slots;
            let (done, end) = s.streams.completed(event_id, op, published);
            let started = s.stream_started(event_id).streams.slots;
            &&& stepped[event_id].writer == next && stepped[event_id].snapshot == before.snapshot
                && stepped[event_id].pending == before.pending && stepped[event_id].terminated
                == before.terminated
            &&& done.slots[event_id].snapshot == before.snapshot && done.slots[event_id].pending
                == before.pending && done.slots[event_id].terminated == before.terminated
            &&& started[event_id].writer.started && started[event_id].snapshot == before.snapshot
                && started[event_id].pending == before.pending
                && started[event_id].writer.chunk_index == before.writer.chunk_index
            &&& end is Some <==> op is Close || op is Abort
            &&& done.slots[event_id].writer.chunk_index == (if op is Write && published {
                succ(before.writer.chunk_index)
            } else {
                before.writer.chunk_index
            })
            &&& other != event_id ==> {
                &&& stepped.contains_key(other) == s.streams.slots.contains_key(other)
                &&& stepped[other] == s.streams.slots[other]
                &&& done.slots[other] == s.streams.slots[other]
                &&& started[other] == s.streams.slots[other]
            }
            &&& done.tokens == s.streams.tokens
        }),
{
}

} // verus!
