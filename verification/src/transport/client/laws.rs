//! What holds of the client end as a whole.

use vstd::prelude::*;

use super::correlation_store::PendingV;
use super::transport::{
    is_progress_frame, request_token, touched, ClientStateV, InboundV, PlanV, ReceivedV, Screening,
};
use crate::constants::{
    DEFAULT_LRU_SIZE, EPHEMERAL_GIFT_WRAP_KIND, GIFT_WRAP_KIND, INITIALIZE_METHOD,
    NOTIFICATIONS_INITIALIZED_METHOD, SUPPORT_ENCRYPTION, SUPPORT_ENCRYPTION_EPHEMERAL,
    SUPPORT_OPEN_STREAM, SUPPORT_OVERSIZED_TRANSFER,
};
use crate::json::{member_from, JsonV};
use crate::lru_cache::{has_key, value_of, without};
use crate::message::{MessageV, NotificationV};
use crate::recency_map::{front_facts, keys_distinct, pushed_facts, without_facts};
use crate::seen_ids::noted_is_seen;
use crate::signed_event::PartsV;
use crate::tag::flag_tag;
use crate::transport::discovery_tags::{capabilities_of, no_capabilities, PeerCapabilities};
use crate::transport::oversized_transfer::errors::TransferErrorV;
use crate::transport::oversized_transfer::frame::{frame_of, notification_token, token_text, FrameV};
use crate::transport::oversized_transfer::receiver::step;
use crate::transport::oversized_transfer::sender::{SendActionV, SendEvent};
use crate::transport::routing::{address_tags_name_the_peer, first_value, recipient_tags};
use crate::types::{gift_wrap_kind, EncryptionMode, GiftWrapMode};

verus! {

/// The names of the discovery tags differ from each other.
pub proof fn discovery_names_differ()
    ensures
        SUPPORT_ENCRYPTION@ != SUPPORT_ENCRYPTION_EPHEMERAL@,
        SUPPORT_ENCRYPTION@ != SUPPORT_OVERSIZED_TRANSFER@,
        SUPPORT_ENCRYPTION@ != SUPPORT_OPEN_STREAM@,
        SUPPORT_ENCRYPTION_EPHEMERAL@ != SUPPORT_OVERSIZED_TRANSFER@,
        SUPPORT_ENCRYPTION_EPHEMERAL@ != SUPPORT_OPEN_STREAM@,
        SUPPORT_OVERSIZED_TRANSFER@ != SUPPORT_OPEN_STREAM@,
{
    reveal_strlit("support_encryption");
    reveal_strlit("support_encryption_ephemeral");
    reveal_strlit("support_oversized_transfer");
    reveal_strlit("support_open_stream");
    assert(SUPPORT_ENCRYPTION@.len() == 18);
    assert(SUPPORT_ENCRYPTION_EPHEMERAL@.len() == 28);
    assert(SUPPORT_OVERSIZED_TRANSFER@.len() == 26);
    assert(SUPPORT_OPEN_STREAM@.len() == 19);
}

/// Every message that the client sends travels in a gift wrap that its own mode accepts; where
/// that leaves a choice, in an ephemeral one exactly if the server is known to understand it.
pub proof fn messages_travel_in_accepted_wraps(s: ClientStateV, m: MessageV, version: Seq<char>)
    ensures
        s.send_plan(m, version).1 matches PlanV::Send(o) ==> {
            &&& s.gift_wrap.accepts(o.gift_wrap_kind)
            &&& s.gift_wrap == GiftWrapMode::Persistent ==> o.gift_wrap_kind == GIFT_WRAP_KIND
            &&& s.gift_wrap == GiftWrapMode::Ephemeral ==> o.gift_wrap_kind
                == EPHEMERAL_GIFT_WRAP_KIND
            &&& s.gift_wrap == GiftWrapMode::Optional ==> o.gift_wrap_kind == (
            if s.supports_ephemeral {
                EPHEMERAL_GIFT_WRAP_KIND
            } else {
                GIFT_WRAP_KIND
            })
        },
{
}

/// Every message that the client sends is addressed to the server and answers no event, in its
/// first event and in all others.
pub proof fn messages_go_to_the_server(s: ClientStateV, m: MessageV, version: Seq<char>)
    ensures
        s.send_plan(m, version).1 matches PlanV::Send(o) ==> {
            &&& first_value(o.tags, "p"@) == Some(s.server)
            &&& first_value(o.base_tags, "p"@) == Some(s.server)
            &&& first_value(o.base_tags, "e"@) is None
            &&& capabilities_of(o.base_tags) == no_capabilities()
            &&& o.base_tags.is_prefix_of(o.tags)
        },
{
    if let PlanV::Send(o) = s.send_plan(m, version).1 {
        let none = Seq::<Seq<Seq<char>>>::empty();
        address_tags_name_the_peer(s.server, s.server, o.tags.skip(1));
        address_tags_name_the_peer(s.server, s.server, none);
        assert(o.tags =~= recipient_tags(s.server) + o.tags.skip(1));
        assert(o.base_tags =~= recipient_tags(s.server) + none);
        assert(forall|i: int| 0 <= i < o.base_tags.len() ==> (#[trigger] o.base_tags[i]).len() == 2);
    }
}

/// The first request says what the client supports, and says nothing that it does not: a peer that
/// reads its tags learns of encryption unless the client does not encrypt, of ephemeral gift
/// wraps if the client also accepts them, of oversized transfers if they are on, and of no open
/// streams. Requests after it and all other messages say nothing.
pub proof fn first_request_says_what_the_client_supports(
    s: ClientStateV,
    m: MessageV,
    version: Seq<char>,
)
    ensures
        s.send_plan(m, version).1 matches PlanV::Send(o) ==> {
            let says = m is Request && !s.has_sent_discovery_tags;
            &&& capabilities_of(o.tags) == (PeerCapabilities {
                supports_encryption: says && s.encryption != EncryptionMode::Disabled,
                supports_ephemeral_encryption: says && s.encryption != EncryptionMode::Disabled
                    && s.gift_wrap != GiftWrapMode::Persistent,
                supports_oversized_transfer: says && s.oversized.enabled,
                supports_open_stream: false,
            })
            &&& o.discovery_sent <==> o.tags != o.base_tags
            &&& !says ==> o.tags == o.base_tags
            &&& forall|i: int|
                1 <= i < o.tags.len() ==> (#[trigger] o.tags[i]).len() == 1 && o.tags[i]
                    != flag_tag(SUPPORT_OPEN_STREAM@)
        },
{
    discovery_names_differ();
    if let PlanV::Send(o) = s.send_plan(m, version).1 {
        let base = recipient_tags(s.server);
        let more = if m is Request {
            s.pending_tags()
        } else {
            Seq::<Seq<Seq<char>>>::empty()
        };
        assert(o.tags == base + more);
        assert(base.len() == 1 && base[0].len() == 2);
        let says = m is Request && !s.has_sent_discovery_tags;
        let a = flag_tag(SUPPORT_ENCRYPTION@);
        let b = flag_tag(SUPPORT_ENCRYPTION_EPHEMERAL@);
        let c = flag_tag(SUPPORT_OVERSIZED_TRANSFER@);
        let d = flag_tag(SUPPORT_OPEN_STREAM@);
        assert(a[0] != b[0] && a[0] != c[0] && a[0] != d[0] && b[0] != c[0] && b[0] != d[0] && c[0]
            != d[0]);
        let e = s.encryption != EncryptionMode::Disabled;
        let f = e && s.gift_wrap != GiftWrapMode::Persistent;
        let g = s.oversized.enabled;
        if says && e {
            assert(o.tags[1] == a);
        }
        if says && f {
            assert(o.tags[2] == b);
        }
        if says && g {
            assert(o.tags.last() == c);
        }
        assert forall|i: int| 1 <= i < o.tags.len() implies #[trigger] o.tags[i] == more[i - 1] by {}
        assert(forall|i: int|
            0 <= i < more.len() ==> says && ((#[trigger] more[i] == a && e) || (more[i] == b && f)
                || (more[i] == c && g)));
        if !says {
            assert(o.tags =~= base);
        }
        assert(o.tags.len() == 1 + more.len());
    }
}

/// What a client that answers `initialize` itself does with a message: the request gets a response
/// with its own id and the version asked for, the notification that follows is dropped, and
/// neither changes anything; everything else is sent, as it is by a client that does not.
pub proof fn stateless_client_answers_initialize(s: ClientStateV, m: MessageV, version: Seq<char>)
    ensures
        ({
            let (after, plan) = s.send_plan(m, version);
            let opens = m is Request && m.method() == Some(INITIALIZE_METHOD@);
            let opened = m is Notification && m.method() == Some(NOTIFICATIONS_INITIALIZED_METHOD@);
            &&& plan is Answer <==> s.stateless && opens
            &&& plan is Skip <==> s.stateless && opened
            &&& !(plan is Send) ==> after == s
            &&& plan matches PlanV::Answer(a) ==> a is Response && a.id() == m.id()
                && a->Response_jsonrpc == "2.0"@ && a->Response_result.field("protocolVersion"@)
                == Some(JsonV::Text(version)) && a->Response_result.field("capabilities"@) is Some
                && a->Response_result.field("serverInfo"@) is Some
        }),
{
    reveal_strlit("protocolVersion");
    reveal_strlit("serverInfo");
    reveal_strlit("capabilities");
    assert("protocolVersion"@.len() == 15 && "serverInfo"@.len() == 10 && "capabilities"@.len()
        == 12);
    reveal_with_fuel(member_from, 4);
}

/// A request may go out in chunks exactly if oversized transfers are on and it names a progress
/// token; that token is then recorded as it was written.
pub proof fn requests_with_a_token_may_be_chunked(s: ClientStateV, m: MessageV, version: Seq<char>)
    requires
        keys_distinct(s.originals),
        s.originals.len() <= DEFAULT_LRU_SIZE,
    ensures
        ({
            let (after, plan) = s.send_plan(m, version);
            plan matches PlanV::Send(o) ==> {
                &&& o.oversized_token == (match request_token(m) {
                    Some(written) => if s.oversized.enabled {
                        token_text(written)
                    } else {
                        None
                    },
                    None => None,
                })
                &&& o.oversized_token matches Some(t) ==> m is Request && value_of(
                    after.originals,
                    t,
                ) == request_token(m)
                &&& o.oversized_token is None ==> after == s
                &&& after.pending == s.pending
                &&& after.has_sent_discovery_tags == s.has_sent_discovery_tags
            }
        }),
{
    if let Some(written) = request_token(m) {
        if let Some(t) = token_text(written) {
            pushed_facts(s.originals, DEFAULT_LRU_SIZE as nat, t, written);
        }
    }
}

/// A request is pending from its registration on, under its own id and the time of registration;
/// no other message is. What was pending before stays, but for the oldest request where there is
/// no room.
pub proof fn registered_request_is_pending(
    s: ClientStateV,
    m: MessageV,
    event_id: Seq<char>,
    now: u64,
    other: Seq<char>,
)
    requires
        keys_distinct(s.pending),
        s.pending.len() <= DEFAULT_LRU_SIZE,
    ensures
        ({
            let after = s.registered(m, event_id, now);
            &&& !(m is Request) ==> after == s
            &&& m is Request ==> (value_of(after.pending, event_id) matches Some(p)
                && p.original_id == m.id().unwrap() && p.registered_at == now && (p.is_initialize
                <==> m.method() == Some(INITIALIZE_METHOD@)))
            &&& other != event_id && has_key(s.pending, other) && (s.pending.len()
                < DEFAULT_LRU_SIZE || s.pending.last().0 != other || has_key(s.pending, event_id))
                ==> value_of(after.pending, other) == value_of(s.pending, other)
            &&& after.pending.len() <= DEFAULT_LRU_SIZE
            &&& after.has_sent_discovery_tags == s.has_sent_discovery_tags
        }),
{
    if let MessageV::Request { id, method, .. } = m {
        pushed_facts(
            s.pending,
            DEFAULT_LRU_SIZE as nat,
            event_id,
            PendingV {
                original_id: id,
                is_initialize: method == INITIALIZE_METHOD@,
                registered_at: now,
            },
        );
    }
}

/// A request that could not be published is waited for no more, and the next request says again
/// what the client supports; once a request that said so has been published, none says it again.
pub proof fn failed_publication_leaves_no_trace(
    s: ClientStateV,
    m: MessageV,
    event_id: Seq<char>,
    now: u64,
    other: Seq<char>,
    next: MessageV,
    version: Seq<char>,
)
    requires
        keys_distinct(s.pending),
        s.pending.len() < DEFAULT_LRU_SIZE,
        !has_key(s.pending, event_id),
        !s.has_sent_discovery_tags,
        next is Request,
    ensures
        ({
            let failed = s.registered(m, event_id, now).unpublished(event_id);
            let (_, plan) = failed.send_plan(next, version);
            &&& !has_key(failed.pending, event_id)
            &&& value_of(failed.pending, other) == value_of(s.pending, other)
            &&& plan == s.send_plan(next, version).1
            &&& s.published(true).send_plan(next, version).1 matches PlanV::Send(o)
                ==> !o.discovery_sent && o.tags == o.base_tags
            &&& s.published(false).send_plan(next, version).1 == s.send_plan(next, version).1
            &&& s.published(true).pending == s.pending
        }),
{
    let registered = s.registered(m, event_id, now);
    if let MessageV::Request { id, method, .. } = m {
        pushed_facts(
            s.pending,
            DEFAULT_LRU_SIZE as nat,
            event_id,
            PendingV {
                original_id: id,
                is_initialize: method == INITIALIZE_METHOD@,
                registered_at: now,
            },
        );
    }
    without_facts(registered.pending, event_id);
    without_facts(s.pending, event_id);
    let base = recipient_tags(s.server);
    assert(base + Seq::<Seq<Seq<char>>>::empty() =~= base);
}

/// What is to be done with an event: one that is encrypted against the client's choice, or plain
/// against it, is dropped; so is a gift wrap that the mode does not accept or that has been opened
/// before; any other gift wrap is opened, and any other event taken as it is.
pub proof fn events_are_screened(s: ClientStateV, kind: u16, event_id: Seq<char>)
    ensures
        gift_wrap_kind(kind) ==> (s.screening(kind, event_id) == Screening::Unwrap
            <==> s.encryption != EncryptionMode::Disabled && s.gift_wrap.accepts(kind) && !has_key(
            s.seen,
            event_id,
        )),
        gift_wrap_kind(kind) ==> s.screening(kind, event_id) != Screening::Plain,
        !gift_wrap_kind(kind) ==> s.screening(kind, event_id) == (if s.encryption
            == EncryptionMode::Required {
            Screening::Drop
        } else {
            Screening::Plain
        }),
{
}

/// A gift wrap is opened once: what comes out of it is taken if it verifies, whole and as encrypted
/// in that kind of gift wrap, and the gift wrap is dropped from then on. What does not verify is
/// not taken, and changes nothing.
pub proof fn gift_wraps_are_opened_once(
    s: ClientStateV,
    kind: u16,
    id: Seq<char>,
    inner: Option<PartsV>,
    verified: bool,
    other: Seq<char>,
)
    requires
        keys_distinct(s.seen),
        s.seen.len() < DEFAULT_LRU_SIZE,
        gift_wrap_kind(kind),
    ensures
        ({
            let (after, taken) = s.unwrapped(kind, id, inner, verified);
            &&& taken is Some <==> inner is Some && verified
            &&& taken is Some ==> after.screening(kind, id) == Screening::Drop
            &&& taken is None ==> after == s
            &&& other != id ==> after.screening(kind, other) == s.screening(kind, other)
            &&& taken matches Some(e) ==> e.wrap_kind == Some(kind) && (inner matches Some(p)
                && e.pubkey == p.pubkey && e.event_id == p.event_id && e.content == p.content
                && e.tags == p.tags)
        }),
{
    noted_is_seen(s.seen, id);
    pushed_facts(s.seen, DEFAULT_LRU_SIZE as nat, id, ());
    assert(other != id ==> value_of(s.unwrapped(kind, id, inner, verified).0.seen, other)
        == value_of(s.seen, other));
}

/// What the client knows of the server after an event of it is what it knew before and what the
/// event's tags say; that it understands ephemeral gift wraps shows in the tags or in the gift
/// wrap itself. The first event with discovery tags is kept as the server's introduction.
pub proof fn client_learns_from_the_server(
    s: ClientStateV,
    now: u64,
    event: InboundV,
    n: Option<NotificationV>,
    m: Option<MessageV>,
)
    requires
        event.pubkey == s.server,
    ensures
        ({
            let after = s.received(now, event, n, m).0;
            let says = |name: Seq<char>| event.tags.contains(flag_tag(name));
            &&& after.capabilities.supports_encryption <==> s.capabilities.supports_encryption
                || says(SUPPORT_ENCRYPTION@)
            &&& after.capabilities.supports_ephemeral_encryption
                <==> s.capabilities.supports_ephemeral_encryption || says(
                SUPPORT_ENCRYPTION_EPHEMERAL@,
            )
            &&& after.capabilities.supports_oversized_transfer
                <==> s.capabilities.supports_oversized_transfer || says(SUPPORT_OVERSIZED_TRANSFER@)
            &&& after.capabilities.supports_open_stream == s.capabilities.supports_open_stream
            &&& event.wrap_kind == Some(EPHEMERAL_GIFT_WRAP_KIND) ==> after.supports_ephemeral
            &&& says(SUPPORT_ENCRYPTION_EPHEMERAL@) ==> after.supports_ephemeral
            &&& after.supports_ephemeral && !s.supports_ephemeral ==> event.wrap_kind == Some(
                EPHEMERAL_GIFT_WRAP_KIND,
            ) || exists|i: int|
                0 <= i < event.tags.len() && (#[trigger] event.tags[i]).len() > 0
                    && event.tags[i][0] == SUPPORT_ENCRYPTION_EPHEMERAL@
            &&& s.baseline is None && after.baseline is Some ==> after.baseline == Some(
                event.source(),
            )
            &&& s.baseline is None && (says(SUPPORT_ENCRYPTION@) || says(
                SUPPORT_OVERSIZED_TRANSFER@,
            )) ==> after.baseline is Some
        }),
{
    let found = crate::transport::discovery_tags::discovery_tags_of(event.tags);
    crate::transport::discovery_tags::filtering_keeps_capabilities(event.tags);
    let t = s.learned(event);
    if found.len() == 0 {
        assert(!found.contains(flag_tag(SUPPORT_ENCRYPTION@)));
        assert(!found.contains(flag_tag(SUPPORT_ENCRYPTION_EPHEMERAL@)));
        assert(!found.contains(flag_tag(SUPPORT_OVERSIZED_TRANSFER@)));
    }
    if event.tags.contains(flag_tag(SUPPORT_ENCRYPTION_EPHEMERAL@)) {
        let i = event.tags.index_of(flag_tag(SUPPORT_ENCRYPTION_EPHEMERAL@));
        assert(event.tags[i][0] == SUPPORT_ENCRYPTION_EPHEMERAL@);
    }
    let after = s.received(now, event, n, m).0;
    assert(after.capabilities == t.capabilities);
    assert(after.supports_ephemeral == t.supports_ephemeral);
    assert(after.baseline == t.baseline);
}

/// A response of the server to a pending request is delivered as it is, and the request is then no
/// longer pending; all other requests stay pending.
pub proof fn awaited_response_is_delivered(
    s: ClientStateV,
    now: u64,
    event: InboundV,
    n: Option<NotificationV>,
    m: MessageV,
    id: Seq<char>,
    other: Seq<char>,
)
    requires
        keys_distinct(s.pending),
        event.pubkey == s.server,
        n matches Some(x) ==> !is_progress_frame(x),
        first_value(event.tags, "e"@) == Some(id),
        has_key(s.pending, id),
        m.is_response(),
    ensures
        ({
            let (after, got) = s.received(now, event, n, Some(m));
            &&& got == ReceivedV::Deliver(m)
            &&& !has_key(after.pending, id)
            &&& other != id ==> value_of(after.pending, other) == value_of(s.pending, other)
            &&& after.receiver == s.receiver
            &&& after.waiters == s.waiters
        }),
{
    without_facts(s.pending, id);
}

/// A notification of the server that names no request is delivered as it is, and answers nothing;
/// a message that names a request that is not pending is dropped, and so is one that cannot be
/// parsed or is a request.
pub proof fn other_messages_answer_nothing(
    s: ClientStateV,
    now: u64,
    event: InboundV,
    n: Option<NotificationV>,
    m: Option<MessageV>,
)
    requires
        event.pubkey == s.server,
        n matches Some(x) ==> !is_progress_frame(x),
    ensures
        ({
            let (after, got) = s.received(now, event, n, m);
            let named = first_value(event.tags, "e"@);
            &&& named is None ==> after.pending == s.pending
            &&& named is None && m is Some && m.unwrap() is Notification ==> got
                == ReceivedV::Deliver(m.unwrap())
            &&& named matches Some(id) ==> (!has_key(s.pending, id) ==> got == ReceivedV::Nothing
                && after.pending == s.pending)
            &&& m is None || m.unwrap() is Request ==> got == ReceivedV::Nothing && after.pending
                == s.pending
            &&& named is None && m is Some && m.unwrap().is_response() ==> got == ReceivedV::Nothing
        }),
{
}

/// A frame of a transfer keeps the request that it belongs to pending, from its own time on, and
/// leaves all others as they are.
pub proof fn frames_keep_their_request_pending(
    s: ClientStateV,
    now: u64,
    event: InboundV,
    n: NotificationV,
    m: Option<MessageV>,
    other: Seq<char>,
)
    requires
        keys_distinct(s.pending),
        event.pubkey == s.server,
        is_progress_frame(n),
        frame_of(n) != Some(FrameV::Accept),
    ensures
        ({
            let after = s.received(now, event, Some(n), m).0;
            let named = first_value(event.tags, "e"@);
            &&& named matches Some(id) ==> match value_of(s.pending, id) {
                Some(p) => value_of(after.pending, id) matches Some(q) && q.registered_at == now
                    && q.original_id == p.original_id && q.is_initialize == p.is_initialize,
                None => value_of(after.pending, id) is None,
            }
            &&& named != Some(other) ==> value_of(after.pending, other) == value_of(
                s.pending,
                other,
            )
        }),
{
    frames_touch_their_request(s, now, event, n, m);
    if let Some(id) = first_value(event.tags, "e"@) {
        touched_lookup(s.pending, id, now, id);
        touched_lookup(s.pending, id, now, other);
    }
}

proof fn frames_touch_their_request(
    s: ClientStateV,
    now: u64,
    event: InboundV,
    n: NotificationV,
    m: Option<MessageV>,
)
    requires
        event.pubkey == s.server,
        is_progress_frame(n),
        frame_of(n) != Some(FrameV::Accept),
    ensures
        s.received(now, event, Some(n), m).0.pending == (match first_value(event.tags, "e"@) {
            Some(id) => touched(s.pending, id, now),
            None => s.pending,
        }),
{
}

proof fn touched_lookup(pending: Seq<(Seq<char>, PendingV)>, id: Seq<char>, now: u64, k: Seq<char>)
    requires
        keys_distinct(pending),
    ensures
        k != id ==> value_of(touched(pending, id, now), k) == value_of(pending, k),
        value_of(touched(pending, id, now), id) == (match value_of(pending, id) {
            Some(p) => Some(PendingV { registered_at: now, ..p }),
            None => None,
        }),
{
    if let Some(p) = value_of(pending, id) {
        without_facts(pending, id);
        front_facts(without(pending, id), id, PendingV { registered_at: now, ..p });
    }
}

/// An `accept` releases whoever waits for it, once: a second one, and one that nobody waits for,
/// does nothing. No other frame releases anybody.
pub proof fn accept_releases_its_waiter_once(
    s: ClientStateV,
    now: u64,
    event: InboundV,
    n: NotificationV,
    m: Option<MessageV>,
    later: u64,
    t: Seq<char>,
)
    requires
        event.pubkey == s.server,
        is_progress_frame(n),
        notification_token(n) == Some(t),
    ensures
        ({
            let (after, got) = s.received(now, event, Some(n), m);
            &&& got is Accepted <==> frame_of(n) == Some(FrameV::Accept) && s.waiters.contains(t)
            &&& got matches ReceivedV::Accepted { waiter, .. } ==> waiter == t && after.waiters
                == s.waiters.remove(t) && after.received(later, event, Some(n), m).1
                == ReceivedV::Nothing
            &&& frame_of(n) == Some(FrameV::Accept) && !(got is Accepted) ==> got
                == ReceivedV::Nothing && after.waiters == s.waiters
            &&& after.pending == s.pending || frame_of(n) != Some(FrameV::Accept)
        }),
{
}

/// The progress that the consumer gets of a frame is that of the frame, under the token that the
/// consumer itself wrote, with the frame's total and message and nothing else of it.
pub proof fn progress_comes_under_the_own_token(
    s: ClientStateV,
    now: u64,
    event: InboundV,
    n: NotificationV,
    m: Option<MessageV>,
    t: Seq<char>,
    written: JsonV,
)
    requires
        event.pubkey == s.server,
        is_progress_frame(n),
        notification_token(n) == Some(t),
        value_of(s.originals, t) == Some(written),
    ensures
        ({
            let got = match s.received(now, event, Some(n), m).1 {
                ReceivedV::Deliver(x) => Some(x),
                ReceivedV::Accepted { progress, .. } => progress,
                _ => None,
            };
            got matches Some(x) ==> {
                &&& x is Notification
                &&& x.method() == Some("notifications/progress"@)
                &&& x->Notification_0.params matches Some(params)
                &&& params.field("progressToken"@) == Some(written)
                &&& params.field("progress"@) == n.params.unwrap().field("progress"@)
                &&& params.field("total"@) == n.params.unwrap().field("total"@)
                &&& params.field("message"@) == n.params.unwrap().field("message"@)
                &&& params.field("cvm"@) is None
            }
        }),
{
    reveal_strlit("progressToken");
    reveal_strlit("progress");
    reveal_strlit("total");
    reveal_strlit("message");
    reveal_strlit("cvm");
    assert("progressToken"@.len() == 13 && "progress"@.len() == 8 && "total"@.len() == 5
        && "message"@.len() == 7 && "cvm"@.len() == 3);
    reveal_with_fuel(member_from, 6);
    if let Some(p) = n.params {
        stripped_members(p, written);
    }
}

proof fn stripped_members(p: JsonV, written: JsonV)
    ensures
        super::transport::stripped(p, written) matches Some(x) ==> {
            &&& x is Notification
            &&& x.method() == Some("notifications/progress"@)
            &&& x->Notification_0.params matches Some(params)
            &&& params.field("progressToken"@) == Some(written)
            &&& params.field("progress"@) == p.field("progress"@)
            &&& params.field("total"@) == p.field("total"@)
            &&& params.field("message"@) == p.field("message"@)
            &&& params.field("cvm"@) is None
        },
{
    reveal_strlit("progressToken");
    reveal_strlit("progress");
    reveal_strlit("total");
    reveal_strlit("message");
    reveal_strlit("cvm");
    assert("progressToken"@.len() == 13 && "progress"@.len() == 8 && "total"@.len() == 5
        && "message"@.len() == 7 && "cvm"@.len() == 3);
    reveal_with_fuel(member_from, 6);
}

/// A frame of a transfer goes to the reassembly and nowhere else: its outcome decides what the
/// consumer gets. A complete payload is handed out with the transfer's token and the request that
/// it answers; of a transfer that failed nothing is handed out, and its token is forgotten.
pub proof fn frames_go_to_the_reassembly(
    s: ClientStateV,
    now: u64,
    event: InboundV,
    n: NotificationV,
    m: Option<MessageV>,
)
    requires
        keys_distinct(s.originals),
        event.pubkey == s.server,
        is_progress_frame(n),
        frame_of(n) != Some(FrameV::Accept),
    ensures
        ({
            let (after, got) = s.received(now, event, Some(n), m);
            let (transfers, outcome) = step(s.receiver.transfers, s.receiver.policy, now, n);
            &&& after.receiver.transfers == transfers
            &&& after.receiver.policy == s.receiver.policy
            &&& after.waiters == s.waiters
            &&& outcome matches Ok(Some(payload)) ==> got == (ReceivedV::Reassembled {
                payload,
                token: notification_token(n),
                correlated: first_value(event.tags, "e"@),
            })
            &&& got is Reassembled ==> outcome is Ok
            &&& outcome == Ok::<Option<Seq<char>>, TransferErrorV>(None) && (notification_token(
                n,
            ) matches Some(t) && transfers.contains_key(t)) && (n.params matches Some(params)
                && params.field("progress"@) is Some) ==> got is Deliver
            &&& outcome is Err ==> got == ReceivedV::Nothing && (notification_token(n) matches Some(
                t,
            ) ==> !has_key(after.originals, t))
        }),
{
    if let Some(t) = notification_token(n) {
        without_facts(s.originals, t);
    }
}

/// A message that came in chunks is handed on as it was parsed, and answers the request that it
/// names; a payload that cannot be parsed answers nothing. Either way the transfer's token is
/// forgotten, and nothing else changes.
pub proof fn reassembled_message_answers_its_request(
    s: ClientStateV,
    token: Option<Seq<char>>,
    correlated: Option<Seq<char>>,
    parsed: Option<MessageV>,
    other: Seq<char>,
)
    requires
        keys_distinct(s.pending),
        keys_distinct(s.originals),
    ensures
        ({
            let (after, got) = s.completed(token, correlated, parsed);
            &&& got == parsed
            &&& parsed is Some ==> (correlated matches Some(id) ==> !has_key(after.pending, id))
            &&& parsed is None || correlated != Some(other) ==> value_of(after.pending, other)
                == value_of(s.pending, other)
            &&& token matches Some(t) ==> !has_key(after.originals, t)
            &&& token != Some(other) ==> value_of(after.originals, other) == value_of(
                s.originals,
                other,
            )
            &&& after.receiver == s.receiver
            &&& after.waiters == s.waiters
        }),
{
    if let Some(t) = token {
        without_facts(s.originals, t);
    }
    if let Some(id) = correlated {
        without_facts(s.pending, id);
    }
}

/// A request in chunks waits for the server's `accept` exactly if the server is not known to
/// support transfers; then somebody is noted to wait, the first chunk does not go out before the
/// `accept`, and without it the upload is given up under its own token. The wait can be ended.
pub proof fn upload_waits_for_a_stranger(
    s: ClientStateV,
    content: Seq<char>,
    token: Seq<char>,
    chunk_size: int,
)
    ensures
        ({
            let begun = s.upload_begun(token);
            let sender = s.upload(content, token, chunk_size);
            let started = sender.after(SendEvent::Published);
            &&& sender.action() == SendActionV::Publish(sender.frames[0])
            &&& s.capabilities.supports_oversized_transfer ==> begun == s && started.action()
                == SendActionV::Publish(sender.frames[1])
            &&& !s.capabilities.supports_oversized_transfer ==> begun.waiters.contains(token)
                && started.action() == SendActionV::AwaitAccept && started.after(
                SendEvent::Accepted,
            ).action() == SendActionV::Publish(sender.frames[1]) && (started.after(
                SendEvent::AcceptMissed,
            ).action() matches SendActionV::Fail(e) && e is Abort && e->Abort_token == token)
            &&& !begun.unawaited(token).waiters.contains(token)
            &&& forall|t: Seq<char>|
                t != token ==> (begun.waiters.contains(t) <==> s.waiters.contains(t)) && (
                #[trigger] begun.unawaited(token).waiters.contains(t) <==> s.waiters.contains(t))
            &&& begun.pending == s.pending
        }),
{
    let frames = s.upload(content, token, chunk_size).frames;
    assert(frames.len() >= 2);
}

/// A client that is closed tracks no transfer, waits for no `accept` and remembers no token.
pub proof fn closed_client_is_at_rest(s: ClientStateV, token: Seq<char>)
    ensures
        !s.closed().receiver.transfers.contains_key(token),
        !s.closed().waiters.contains(token),
        !has_key(s.closed().originals, token),
        s.closed().receiver.policy == s.receiver.policy,
        s.closed().pending == s.pending,
{
}

/// A new client is as it is configured, and knows nothing: it waits for nothing, has said nothing,
/// and its server is a stranger to it.
pub proof fn new_client_is_as_configured(
    config: super::config::NostrClientTransportConfig,
    identity: super::server_identity::IdentityV,
    key: Seq<char>,
)
    ensures
        ({
            let s = ClientStateV::fresh(config, identity);
            &&& s.encryption == config.encryption_mode && s.gift_wrap == config.gift_wrap_mode
            &&& s.stateless == config.is_stateless
            &&& s.timeout_ms == config.timeout_ms
            &&& s.oversized == config.oversized_transfer
            &&& s.server == identity.pubkey
            &&& s.relays.hinted == identity.relays
            &&& !has_key(s.pending, key) && !has_key(s.seen, key) && !has_key(s.originals, key)
                && !s.waiters.contains(key) && !s.receiver.transfers.contains_key(key)
            &&& !s.has_sent_discovery_tags
            &&& !s.supports_ephemeral
            &&& s.baseline is None
            &&& !s.capabilities.supports_encryption
                && !s.capabilities.supports_ephemeral_encryption
                && !s.capabilities.supports_oversized_transfer
                && !s.capabilities.supports_open_stream
            &&& s.receiver.policy.transfer_timeout_ms
                == config.oversized_transfer.transfer_timeout_ms
            &&& s.receiver.policy.max_transfer_bytes == config.oversized_transfer.max_transfer_bytes
        }),
{
}

/// The progress token of a request is the one in its `_meta`; a string stands for itself, and a
/// number for its digits.
pub proof fn tokens_are_in_the_meta(m: MessageV, v: JsonV, t: Seq<char>, n: u64)
    ensures
        request_token(m) == Some(v) <==> m is Request && (m->Request_params matches Some(params)
            && (params.field("_meta"@) matches Some(meta) && meta.field("progressToken"@) == Some(
            v,
        ))),
        token_text(JsonV::Text(t)) == Some(t),
        token_text(JsonV::Number(crate::json::NumberV::Unsigned(n))) == Some(
            crate::text::decimal(n as nat),
        ),
        token_text(JsonV::Null) is None,
        token_text(JsonV::Bool(true)) is None,
{
}

/// The event that is kept as the server's introduction gives way to one that holds the result of
/// `initialize` if it does not hold one itself, and to no other.
pub proof fn introduction_gives_way_to_the_result(
    s: ClientStateV,
    event: InboundV,
    kept: super::transport::SourceV,
)
    requires
        s.baseline == Some(kept),
        event.tags.contains(flag_tag(SUPPORT_ENCRYPTION@)),
    ensures
        s.learned(event).baseline == Some(
            if super::transport::holds_initialize_result(event.content)
                && !super::transport::holds_initialize_result(kept.content) {
                event.source()
            } else {
                kept
            },
        ),
        event.source().event_id == event.event_id && event.source().content == event.content
            && event.source().tags == event.tags,
{
    crate::transport::discovery_tags::filtering_keeps_capabilities(event.tags);
    let found = crate::transport::discovery_tags::discovery_tags_of(event.tags);
    assert(capabilities_of(found).supports_encryption);
    assert(found.contains(flag_tag(SUPPORT_ENCRYPTION@)));
    assert(found.len() > 0);
}

/// A frame of a transfer is a notification of progress that carries one; nothing else is kept from
/// the consumer as such.
pub proof fn only_progress_carries_frames(n: NotificationV)
    ensures
        is_progress_frame(n) <==> n.method == "notifications/progress"@
            && crate::transport::oversized_transfer::receiver::looks_oversized(n),
        frame_of(n) is Some && n.method == "notifications/progress"@ ==> is_progress_frame(n),
{
}

/// The token that the consumer wrote is remembered for as long as progress comes under it: a frame
/// that gives the consumer progress, and an `accept`, leave every recorded token as it is.
pub proof fn progress_keeps_the_token(
    s: ClientStateV,
    now: u64,
    event: InboundV,
    n: NotificationV,
    m: Option<MessageV>,
    t: Seq<char>,
)
    requires
        keys_distinct(s.originals),
        is_progress_frame(n),
    ensures
        ({
            let (after, got) = s.received(now, event, Some(n), m);
            got is Deliver || got is Accepted || got is Reassembled ==> value_of(after.originals, t)
                == value_of(s.originals, t)
        }),
{
    if let Some(k) = notification_token(n) {
        used_lookup(s.originals, k, t);
    }
}

proof fn used_lookup(originals: Seq<(Seq<char>, JsonV)>, k: Seq<char>, t: Seq<char>)
    requires
        keys_distinct(originals),
    ensures
        value_of(super::progress_tokens::used(originals, k), t) == value_of(originals, t),
{
    if let Some(original) = value_of(originals, k) {
        without_facts(originals, k);
        front_facts(without(originals, k), k, original);
    }
}

} // verus!
