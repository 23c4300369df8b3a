//! What holds of a client and a server that talk to each other.

use vstd::prelude::*;

use super::client::transport::{ClientStateV, InboundV, ReceivedV, Screening};
use super::routing::{first_value, response_tags, response_wrap};
use super::server::access::is_authorized;
use super::server::delivery_laws::streamed_request_is_answered_where_it_came_from;
use super::server::laws::request_is_answered_where_it_came_from;
use super::server::reply::ReplyV;
use super::server::transport::{
    has_room, is_tool_call, request_token_text, ResponsePlanV, ServerInboundV, ServerStateV,
};
use crate::keys::{is_hex_key, lower_hex};
use crate::lru_cache::has_key;
use crate::message::{MessageV, NotificationV};
use crate::recency_map::{keys_distinct, without_facts};
use crate::types::EncryptionMode;

verus! {

/// The tags of a response name its addressee and the event that it answers, whatever tags follow
/// them.
pub proof fn response_tags_name_the_request(
    pubkey: Seq<char>,
    event_id: Seq<char>,
    more: Seq<Seq<Seq<char>>>,
)
    ensures
        first_value(response_tags(pubkey, event_id) + more, "p"@) == Some(pubkey),
        first_value(response_tags(pubkey, event_id) + more, "e"@) == Some(event_id),
{
    let tags = response_tags(pubkey, event_id) + more;
    reveal_strlit("p");
    reveal_strlit("e");
    assert("p"@[0] != "e"@[0]);
    assert(tags[0][0] == "p"@);
    assert(tags.skip(1)[0] == tags[1]);
    reveal_with_fuel(first_value, 2);
}

/// A request comes back answered: the server's response to an event that the client is waiting
/// for is delivered to the client's consumer, under the id of the request, and the client then
/// waits for it no more.
pub proof fn request_comes_back_answered(
    server: ServerStateV,
    client: ClientStateV,
    now: u64,
    inbound: ServerInboundV,
    request: MessageV,
    response: MessageV,
    later: u64,
    event_id: Seq<char>,
    content: Seq<char>,
    wrap_kind: Option<u16>,
)
    requires
        server.sessions.bounded(),
        server.routes.bounded(),
        has_room(server.sessions, server.routes, inbound.sender),
        is_authorized(server.allowed, server.excluded, inbound.sender, request),
        request is Request,
        response.is_response(),
        is_hex_key(inbound.sender),
        is_hex_key(inbound.event_id),
        !server.streams.slots.contains_key(inbound.event_id),
        keys_distinct(client.pending),
        has_key(client.pending, lower_hex(inbound.event_id)),
    ensures
        ({
            let t = server.received(now, inbound, request).0;
            &&& t.response_plan(inbound.event_id, response).1 matches ResponsePlanV::Send(p)
            &&& {
                let event = InboundV {
                    event_id,
                    content,
                    pubkey: client.server,
                    tags: p.tags,
                    wrap_kind,
                };
                let (after, got) = client.received(later, event, None, Some(p.response));
                &&& got == ReceivedV::Deliver(p.response)
                &&& p.response == response.answered_as(request->Request_id)
                &&& p.response.id() == request.id()
                &&& !has_key(after.pending, lower_hex(inbound.event_id))
            }
        }),
{
    request_is_answered_where_it_came_from(server, now, inbound, request, response);
    let t = server.received(now, inbound, request).0;
    let p = t.response_plan(inbound.event_id, response).1->Send_0;
    let id = lower_hex(inbound.event_id);
    let base = response_tags(lower_hex(inbound.sender), id);
    let more = p.tags.skip(2);
    assert(p.base_tags == base);
    assert(base.is_prefix_of(p.tags));
    assert(p.tags =~= base + more);
    response_tags_name_the_request(lower_hex(inbound.sender), id, more);
    without_facts(client.pending, id);
}

/// What a server sends in answer to a gift wrap that it has opened, the client that sent it opens
/// too: the answer travels in the very kind that the client uses.
pub proof fn answers_are_opened_by_the_client(
    client: ClientStateV,
    server: ServerStateV,
    m: MessageV,
    version: Seq<char>,
    wrap_id: Seq<char>,
    answer_id: Seq<char>,
)
    requires
        client.send_plan(m, version).1 is Send,
        client.encryption != EncryptionMode::Disabled,
        server.screening(client.send_plan(m, version).1->Send_0.gift_wrap_kind, wrap_id)
            == Screening::Unwrap,
        !has_key(client.seen, answer_id),
    ensures
        ({
            let kind = client.send_plan(m, version).1->Send_0.gift_wrap_kind;
            &&& response_wrap(server.gift_wrap, true, Some(kind)) == Some(kind)
            &&& client.screening(kind, answer_id) == Screening::Unwrap
        }),
{
}

/// A request that was streamed comes back answered: the response that goes out once the stream has
/// ended, whether it was held back or came later, is delivered to the client's consumer under the
/// id of the request.
pub proof fn streamed_request_comes_back_answered(
    server: ServerStateV,
    client: ClientStateV,
    now: u64,
    inbound: ServerInboundV,
    request: MessageV,
    frame: NotificationV,
    response: MessageV,
    later: u64,
    event_id: Seq<char>,
    content: Seq<char>,
    wrap_kind: Option<u16>,
)
    requires
        server.streams.enabled,
        is_authorized(server.allowed, server.excluded, inbound.sender, request),
        is_tool_call(request),
        request_token_text(request) is Some,
        response.is_response(),
        is_hex_key(inbound.sender),
        is_hex_key(inbound.event_id),
        keys_distinct(client.pending),
        has_key(client.pending, lower_hex(inbound.event_id)),
    ensures
        ({
            let t = server.received(now, inbound, request).0.stream_started(inbound.event_id);
            let held = t.response_plan(inbound.event_id, response).0;
            let ended = t.stream_ended(inbound.event_id).0;
            let got = |r: ReplyV|
                client.received(
                    later,
                    InboundV {
                        event_id,
                        content,
                        pubkey: client.server,
                        tags: r.tags,
                        wrap_kind,
                    },
                    None,
                    Some(r.message),
                ).1;
            &&& held.stream_ended(inbound.event_id).1 matches Some(Ok(x))
            &&& got(x) == ReceivedV::Deliver(response.answered_as(request.id().unwrap()))
            &&& ended.response_plan(inbound.event_id, response).1 matches ResponsePlanV::Reply(y)
            &&& got(y) == ReceivedV::Deliver(response.answered_as(request.id().unwrap()))
        }),
{
    streamed_request_is_answered_where_it_came_from(
        server,
        now,
        inbound,
        request,
        frame,
        response,
    );
}

} // verus!
