//! What the server end decides.
//!
//! [`NostrServerTransport`] keeps the server's state: its clients, the routes of the requests
//! that are being worked on, transfers and streams in progress. For each event that arrives and
//! each message to be sent it decides what is to be done; the caller signs, encrypts, publishes,
//! decrypts and parses.

use vstd::prelude::*;

use super::access::{authorize, exclusion_views, is_authorized, ExclusionV};
use super::announcement_manager::{
    list_announcement, Announcement, AnnouncementManager, CommonTagsSnapshot, IncomingRequest,
    IncomingV, ManagerV, Reaction, SnapshotV,
};
use super::config::{feature_tags, internal_common_capability_tags, NostrServerTransportConfig};
use super::correlation_store::{
    not_among, pop_keeps_other_routes, stale_routes_are_overdue, RouteEntry, RouteStoreV, RouteV,
    ServerEventRouteStore,
};
use super::open_streams::{
    deferred_reply, lists_due, peer_actions, prepare_deferred_response, swept_readers, DeferralV,
    OpenStreamDeferral, PeerAction, PeerActionV, RoutingV, ServerOpenStreamState, SlotV,
    StreamRouting, StreamsV,
};
use super::oversized_peers::{OversizedPeers, PeersV};
use super::reply::{event_id_or_zeros, opt_reply, parse_event_id_or_zeros, Reply, ReplyV};
use super::session_store::{
    admission_keeps_bounds, initialized_keys, is_busy, not_silent, SessionSnapshot, SessionStore,
    SessionsV,
};
use crate::constants::{
    DEFAULT_LRU_SIZE, EPHEMERAL_GIFT_WRAP_KIND, NOTIFICATIONS_INITIALIZED_METHOD, PROMPTS_LIST_KIND,
    RESOURCES_LIST_KIND, RESOURCETEMPLATES_LIST_KIND, SERVER_ANNOUNCEMENT_KIND, TOOLS_LIST_KIND,
};
use crate::json::{get_opt, text_value, Json, JsonV};
use crate::keys::{
    event_id_error, event_id_from_hex, is_hex_key, lower_hex, public_key_error, public_key_from_hex,
};
use crate::lru_cache::{has_key, value_of, without};
use crate::message::{
    JsonRpcError, JsonRpcErrorResponse, JsonRpcMessage, JsonRpcNotification, MessageV,
    NotificationV,
};
use crate::recency_map::{
    front_facts, keys_distinct, pushed_facts, retain, retain_facts, retain_lookup, without_facts,
};
use crate::seen_ids::{noted, SeenIds};
use crate::signed_event::{
    event_of, event_verifies, opt_parts, parse_event, verify_event, EventParts, PartsV,
};
use crate::tag::{clone_tags, push_tag, tag_views, Tag};
use crate::text::{join2, opt_str, opt_text, same_text, texts};
use crate::text_map::TextMap;
use crate::transport::client::transport::{request_token, Screening};
use crate::transport::discovery_tags::{capabilities_of, learn_peer_capabilities};
use crate::transport::open_stream::frame::{OpenStreamFrame, StreamFrameV};
use crate::transport::open_stream::receiver::OpenStreamReceiver;
use crate::transport::open_stream::registry::{looks_like_stream_frame, opt_end, StreamEnd};
use crate::transport::open_stream::session::{KeepaliveAction, KeepaliveV, OutcomeV};
use crate::transport::open_stream::writer::{
    OpV, OpenStreamWriter, WriterOp, WriterStep, WriterV,
};
use crate::transport::oversized_transfer::constants::ACCEPT_PROGRESS;
use crate::transport::oversized_transfer::codec::{
    build_oversized_frames, build_refusal, notifications, transfer_frames, OversizedSenderOptions,
};
use crate::transport::oversized_transfer::errors::OversizedTransferError;
use crate::transport::oversized_transfer::frame::{
    frame_of, frame_of_notification, notification_token, progress_notification,
    progress_token_string, token_of_notification, token_text, FrameV, OversizedFrame,
};
use crate::transport::oversized_transfer::receiver::{
    looks_oversized, OversizedTransferReceiver, TransferPolicy,
};
use crate::transport::oversized_transfer::OversizedTransferConfig;
use crate::transport::routing::{
    compose_outbound_tags, create_recipient_tags, create_response_tags, is_gift_wrap_kind,
    notification_wrap, recipient_tags, response_tags, response_wrap, select_outbound_gift_wrap_kind,
    select_outbound_notification_gift_wrap_kind, sweep_interval_us, sweep_period,
};
use crate::types::{gift_wrap_kind, opt_info, ClientSession, ClientV, EncryptionMode, GiftWrapMode};

verus! {

/// An event from a client, decrypted and verified where it was encrypted.
#[derive(Debug, PartialEq, Eq)]
pub struct ServerInbound {
    /// The client's public key.
    pub sender_pubkey: String,
    /// Id of the event.
    pub event_id: String,
    /// Kind of the gift wrap that carried it, if it was encrypted.
    pub wrap_kind: Option<u16>,
    /// Its tags.
    pub tags: Vec<Tag>,
}

/// Model of [`ServerInbound`].
pub struct ServerInboundV {
    pub sender: Seq<char>,
    pub event_id: Seq<char>,
    pub wrap_kind: Option<u16>,
    pub tags: Seq<Seq<Seq<char>>>,
}

impl View for ServerInbound {
    type V = ServerInboundV;

    open spec fn view(&self) -> ServerInboundV {
        ServerInboundV {
            sender: self.sender_pubkey@,
            event_id: self.event_id@,
            wrap_kind: self.wrap_kind,
            tags: tag_views(self.tags@),
        }
    }
}

impl ServerInboundV {
    /// Whether the event was encrypted.
    pub open spec fn is_encrypted(self) -> bool {
        self.wrap_kind is Some
    }
}

/// An event that came out of a gift wrap.
#[derive(Debug, PartialEq, Eq)]
pub struct OpenedEvent {
    /// Where it came from.
    pub inbound: ServerInbound,
    /// Its content, which has to be parsed.
    pub content: String,
}

/// The model of an optional event that came out of a gift wrap.
pub open spec fn opt_opened(e: Option<OpenedEvent>) -> Option<(ServerInboundV, Seq<char>)> {
    match e {
        Some(x) => Some((x.inbound@, x.content@)),
        None => None,
    }
}

/// A payload that is complete and has to be parsed.
#[derive(Debug, PartialEq, Eq)]
pub struct Payload {
    /// The payload.
    pub text: String,
    /// The progress token of the transfer.
    pub token: Option<String>,
}

/// What is to be done with an event from a client.
#[derive(Debug, PartialEq, Eq)]
pub enum ServerAction {
    /// The client may not send this. It gets this answer, if any.
    Denied(Option<Reply>),
    /// A frame of an oversized transfer. This `accept`, if any, is to be sent, and this payload,
    /// if any, is to be parsed and handed to [`NostrServerTransport::dispatch_reassembled`].
    Oversized { accept: Option<Reply>, payload: Option<Payload> },
    /// A frame of an open stream. The writer of an event is to perform an operation, if any, and
    /// these frames are to be sent.
    Stream { op: Option<(String, WriterOp)>, replies: Vec<Reply> },
    /// A message for the handler.
    Forward(IncomingRequest),
}

/// Model of [`ServerAction`].
pub enum ServerActionV {
    Denied(Option<ReplyV>),
    Oversized { accept: Option<ReplyV>, payload: Option<(Seq<char>, Option<Seq<char>>)> },
    Stream { op: Option<(Seq<char>, OpV)>, replies: Seq<ReplyV> },
    Forward(IncomingV),
}

/// The models of some replies.
pub open spec fn reply_views(list: Seq<Reply>) -> Seq<ReplyV> {
    Seq::new(list.len(), |i: int| list[i]@)
}

impl View for ServerAction {
    type V = ServerActionV;

    open spec fn view(&self) -> ServerActionV {
        match self {
            ServerAction::Denied(r) => ServerActionV::Denied(opt_reply(*r)),
            ServerAction::Oversized { accept, payload } => ServerActionV::Oversized {
                accept: opt_reply(*accept),
                payload: match payload {
                    Some(p) => Some((p.text@, opt_text(p.token))),
                    None => None,
                },
            },
            ServerAction::Stream { op, replies } => ServerActionV::Stream {
                op: match op {
                    Some((id, o)) => Some((id@, o@)),
                    None => None,
                },
                replies: reply_views(replies@),
            },
            ServerAction::Forward(i) => ServerActionV::Forward(i@),
        }
    }
}

/// What came of an event from a client.
#[derive(Debug, PartialEq, Eq)]
pub struct ServerReceived {
    /// The client that is gone because a new one came.
    pub evicted: Option<String>,
    /// What is to be done.
    pub action: ServerAction,
}

/// A response that is ready to be sent.
#[derive(Debug, PartialEq, Eq)]
pub struct PreparedResponse {
    /// Id of the event that it answers.
    pub event_id: String,
    /// The response, under the id that the client knows.
    pub response: JsonRpcMessage,
    /// The client's public key.
    pub recipient: String,
    /// The addressing tags.
    pub base_tags: Vec<Tag>,
    /// All tags of the first event.
    pub tags: Vec<Tag>,
    /// Whether the response is encrypted.
    pub is_encrypted: bool,
    /// Kind of the gift wrap of an encrypted response.
    pub gift_wrap_kind: Option<u16>,
    /// The progress token, if the response may be sent in chunks.
    pub oversized_token: Option<String>,
    /// The route that was used up.
    pub route: RouteEntry,
}

/// Model of [`PreparedResponse`].
pub struct PreparedV {
    pub event_id: Seq<char>,
    pub response: MessageV,
    pub recipient: Seq<char>,
    pub base_tags: Seq<Seq<Seq<char>>>,
    pub tags: Seq<Seq<Seq<char>>>,
    pub is_encrypted: bool,
    pub gift_wrap_kind: Option<u16>,
    pub oversized_token: Option<Seq<char>>,
    pub route: RouteV,
}

impl View for PreparedResponse {
    type V = PreparedV;

    open spec fn view(&self) -> PreparedV {
        PreparedV {
            event_id: self.event_id@,
            response: self.response@,
            recipient: self.recipient@,
            base_tags: tag_views(self.base_tags@),
            tags: tag_views(self.tags@),
            is_encrypted: self.is_encrypted,
            gift_wrap_kind: self.gift_wrap_kind,
            oversized_token: opt_text(self.oversized_token),
            route: self.route@,
        }
    }
}

/// What is to be done with a response of the handler.
#[derive(Debug, PartialEq, Eq)]
pub enum ResponsePlan {
    /// It is held back until the stream of its request has ended.
    Deferred,
    /// It goes out as this reply.
    Reply(Reply),
    /// It goes out like this.
    Send(PreparedResponse),
    /// It cannot be sent.
    Fail(String),
}

/// Model of [`ResponsePlan`].
pub enum ResponsePlanV {
    Deferred,
    Reply(ReplyV),
    Send(PreparedV),
    Fail(Seq<char>),
}

impl View for ResponsePlan {
    type V = ResponsePlanV;

    open spec fn view(&self) -> ResponsePlanV {
        match self {
            ResponsePlan::Deferred => ResponsePlanV::Deferred,
            ResponsePlan::Reply(r) => ResponsePlanV::Reply(r@),
            ResponsePlan::Send(p) => ResponsePlanV::Send(p@),
            ResponsePlan::Fail(e) => ResponsePlanV::Fail(e@),
        }
    }
}

/// Model of [`NostrServerTransport`].
pub struct ServerStateV {
    /// Whether messages are encrypted.
    pub encryption: EncryptionMode,
    /// Which gift wraps are used.
    pub gift_wrap: GiftWrapMode,
    /// Whether the server announces itself.
    pub announced: bool,
    /// Public keys of the clients that are served.
    pub allowed: Seq<Seq<char>>,
    /// Capabilities that every client may use.
    pub excluded: Seq<ExclusionV>,
    /// Configuration of oversized transfers.
    pub oversized: OversizedTransferConfig,
    /// After how much silence a client is forgotten.
    pub session_timeout: u64,
    /// How long the route of a request is kept.
    pub request_timeout: u64,
    /// What the server announces.
    pub manager: ManagerV,
    /// What is needed for the tags of a first response.
    pub snapshot: SnapshotV,
    /// The clients.
    pub sessions: SessionsV,
    /// The routes of the requests that are being worked on.
    pub routes: RouteStoreV,
    /// Kinds of the gift wraps that carried those requests.
    pub wrap_kinds: Map<Seq<char>, Option<u16>>,
    /// Gift wraps that have been opened.
    pub seen: Seq<(Seq<char>, ())>,
    /// Transfers from clients.
    pub peers: PeersV,
    /// Open streams.
    pub streams: StreamsV,
}

/// What a client's session is after an event of it: what the client supports is only ever added
/// to, and features that are off are not learned.
pub open spec fn client_heard(
    c: ClientV,
    now: u64,
    inbound: ServerInboundV,
    oversized_enabled: bool,
    stream_enabled: bool,
) -> ClientV {
    let found = capabilities_of(inbound.tags);
    ClientV {
        last_activity: now,
        is_encrypted: inbound.is_encrypted(),
        supports_ephemeral_gift_wrap: c.supports_ephemeral_gift_wrap || inbound.wrap_kind == Some(
            EPHEMERAL_GIFT_WRAP_KIND,
        ),
        supports_encryption: c.supports_encryption || found.supports_encryption,
        supports_ephemeral_encryption: c.supports_ephemeral_encryption
            || found.supports_ephemeral_encryption,
        supports_oversized_transfer: c.supports_oversized_transfer || (oversized_enabled
            && found.supports_oversized_transfer),
        supports_open_stream: c.supports_open_stream || (stream_enabled
            && found.supports_open_stream),
        ..c
    }
}

/// A client's session with a request noted in it.
pub open spec fn client_requested(
    c: ClientV,
    event_id: Seq<char>,
    id: JsonV,
    token: Option<Seq<char>>,
) -> ClientV {
    let pending = c.pending_requests.insert(event_id, id);
    match token {
        Some(t) => ClientV {
            pending_requests: pending.insert(t, JsonV::Text(event_id)),
            event_to_progress_token: c.event_to_progress_token.insert(event_id, t),
            ..c
        },
        None => ClientV { pending_requests: pending, ..c },
    }
}

/// A client's session with a request forgotten.
pub open spec fn client_answered(c: ClientV, event_id: Seq<char>, token: Option<Seq<char>>) -> ClientV {
    let pending = match token {
        Some(t) => c.pending_requests.remove(t),
        None => c.pending_requests,
    };
    ClientV {
        pending_requests: pending.remove(event_id),
        event_to_progress_token: c.event_to_progress_token.remove(event_id),
        ..c
    }
}

/// Whether a client is there, or can be let in and is then there: with room for one client only,
/// a busy one cannot give way.
pub open spec fn has_room(s: SessionsV, routes: RouteStoreV, client: Seq<char>) -> bool {
    has_key(s.entries, client) || s.entries.len() < s.capacity || s.capacity >= 2 || !is_busy(
        routes,
        s.entries.last().0,
    )
}

pub(crate) proof fn let_in_is_there(s: SessionsV, routes: RouteStoreV, client: Seq<char>, is_encrypted: bool, now: u64)
    requires
        s.bounded(),
        has_room(s, routes, client),
        !has_key(s.entries, client),
    ensures
        s.with_new(client, is_encrypted, routes, now).0.bounded(),
        has_key(s.with_new(client, is_encrypted, routes, now).0.entries, client),
{
    admission_keeps_bounds(s, client, is_encrypted, routes, now);
    pushed_facts(s.entries, s.capacity, client, ClientV::fresh(is_encrypted, now));
}

/// The text of a request's progress token.
pub open spec fn request_token_text(m: MessageV) -> Option<Seq<char>> {
    match request_token(m) {
        Some(v) => token_text(v),
        None => None,
    }
}

/// Whether a message is a call of a tool.
pub open spec fn is_tool_call(m: MessageV) -> bool {
    m is Request && m->Request_method == "tools/call"@
}

/// The answer to a request of a client that may not make it.
pub open spec fn unauthorized(id: JsonV) -> MessageV {
    MessageV::ErrorResponse {
        jsonrpc: "2.0"@,
        id,
        code: -32000i64,
        message: "Unauthorized"@,
        data: None,
    }
}

impl ServerStateV {
    /// What becomes of what came out of a gift wrap: an event that verifies is taken, and its gift
    /// wrap is remembered.
    pub open spec fn unwrapped(
        self,
        wrap_kind: u16,
        wrap_id: Seq<char>,
        inner: Option<PartsV>,
        verified: bool,
    ) -> (ServerStateV, Option<(ServerInboundV, Seq<char>)>) {
        match inner {
            Some(e) => if verified {
                (
                    ServerStateV { seen: noted(self.seen, wrap_id), ..self },
                    Some(
                        (
                            ServerInboundV {
                                sender: e.pubkey,
                                event_id: e.event_id,
                                wrap_kind: Some(wrap_kind),
                                tags: e.tags,
                            },
                            e.content,
                        ),
                    ),
                )
            } else {
                (self, None)
            },
            None => (self, None),
        }
    }

    /// The state of a server that has no clients yet.
    pub open spec fn fresh(config: NostrServerTransportConfig) -> ServerStateV {
        let places: nat = if config.max_sessions >= 1 {
            config.max_sessions as nat
        } else {
            1
        };
        let manager = ManagerV {
            info: opt_info(config.server_info),
            encryption: config.encryption_mode,
            gift_wrap: config.gift_wrap_mode,
            extra: Seq::empty(),
            internal: feature_tags(
                config.oversized_transfer.enabled,
                config.open_stream.enabled,
            ),
            pricing: Seq::empty(),
            dispatching: true,
            initialized: false,
        };
        ServerStateV {
            encryption: config.encryption_mode,
            gift_wrap: config.gift_wrap_mode,
            announced: config.is_announced_server,
            allowed: texts(config.allowed_public_keys@),
            excluded: exclusion_views(config.excluded_capabilities@),
            oversized: config.oversized_transfer,
            session_timeout: config.session_timeout_ms,
            request_timeout: config.request_timeout_ms,
            manager,
            snapshot: manager.snapshot(),
            sessions: SessionsV { entries: Seq::empty(), capacity: places },
            routes: RouteStoreV {
                routes: Seq::empty(),
                capacity: DEFAULT_LRU_SIZE as nat,
                tokens: Map::empty(),
                clients: Map::empty(),
            },
            wrap_kinds: Map::empty(),
            seen: Seq::empty(),
            peers: PeersV {
                policy: vstd::std_specs::convert::FromSpec::from_spec(
                    &config.oversized_transfer,
                ),
                receivers: Seq::empty(),
                capacity: places,
            },
            streams: StreamsV {
                enabled: config.open_stream.enabled,
                policy: vstd::std_specs::convert::FromSpec::from_spec(&config.open_stream),
                readers: Seq::empty(),
                capacity: places,
                slots: Map::empty(),
                tokens: Map::empty(),
                control_progress: 0,
            },
        }
    }

    /// The state of a server that has been started.
    pub open spec fn started(self) -> ServerStateV {
        ServerStateV { snapshot: self.manager.snapshot(), ..self }
    }

    /// What is to be done with an event of `kind` that a relay delivered.
    pub open spec fn screening(self, kind: u16, event_id: Seq<char>) -> Screening {
        if gift_wrap_kind(kind) {
            if !self.gift_wrap.accepts(kind) || self.encryption == EncryptionMode::Disabled
                || has_key(self.seen, event_id) {
                Screening::Drop
            } else {
                Screening::Unwrap
            }
        } else if self.encryption == EncryptionMode::Required {
            Screening::Drop
        } else {
            Screening::Plain
        }
    }

    /// The state after a response could not be sent: its route is there again.
    pub open spec fn unsent(self, p: PreparedV, now: u64) -> ServerStateV {
        ServerStateV {
            routes: self.routes.registered(
                p.event_id,
                RouteV { wrap_kind: None, registered_at: now, ..p.route },
            ),
            ..self
        }
    }

    /// The state after a response has been sent: what was noted of its request is forgotten.
    pub open spec fn sent(self, p: PreparedV) -> ServerStateV {
        let client = p.route.client_pubkey;
        let s = ServerStateV { wrap_kinds: self.wrap_kinds.remove(p.event_id), ..self };
        match value_of(self.sessions.entries, client) {
            Some(c) => s.with_client(
                client,
                client_answered(c, p.event_id, p.route.progress_token),
            ),
            None => s,
        }
    }

    /// The state of a server that is closed.
    pub open spec fn closed(self) -> ServerStateV {
        ServerStateV {
            manager: ManagerV { dispatching: false, ..self.manager },
            sessions: SessionsV { entries: Seq::empty(), ..self.sessions },
            routes: RouteStoreV {
                routes: Seq::empty(),
                tokens: Map::empty(),
                clients: Map::empty(),
                ..self.routes
            },
            peers: PeersV { receivers: Seq::empty(), ..self.peers },
            streams: StreamsV {
                readers: Seq::empty(),
                slots: Map::empty(),
                tokens: Map::empty(),
                ..self.streams
            },
            ..self
        }
    }

    /// What a message that its sender may not send calls for. A server that announces itself
    /// answers a request, the first time with the tags that introduce the server.
    pub open spec fn denied(self, inbound: ServerInboundV, m: MessageV) -> (
        ServerStateV,
        Option<ReplyV>,
    ) {
        if !self.announced || !(m is Request) || !is_hex_key(inbound.sender) {
            (self, None)
        } else {
            let client = value_of(self.sessions.entries, inbound.sender);
            let introduced = client matches Some(c) && c.has_sent_common_tags;
            let base = response_tags(
                lower_hex(inbound.sender),
                event_id_or_zeros(inbound.event_id),
            );
            (
                match client {
                    Some(c) => if introduced {
                        self
                    } else {
                        ServerStateV {
                            sessions: self.sessions.updated(
                                inbound.sender,
                                ClientV { has_sent_common_tags: true, ..c },
                            ),
                            ..self
                        }
                    },
                    None => self,
                },
                Some(
                    ReplyV {
                        message: unauthorized(m->Request_id),
                        recipient: lower_hex(inbound.sender),
                        tags: if introduced {
                            base
                        } else {
                            base + self.snapshot.response_tags()
                        },
                        is_encrypted: inbound.is_encrypted(),
                        gift_wrap_kind: response_wrap(
                            self.gift_wrap,
                            inbound.is_encrypted(),
                            inbound.wrap_kind,
                        ),
                    },
                ),
            )
        }
    }

    /// The clients with the sender among them, and who had to leave.
    pub open spec fn with_sender(self, now: u64, inbound: ServerInboundV) -> (
        SessionsV,
        Option<Seq<char>>,
    ) {
        if has_key(self.sessions.entries, inbound.sender) {
            (self.sessions, None)
        } else {
            self.sessions.with_new(inbound.sender, inbound.is_encrypted(), self.routes, now)
        }
    }

    /// The sender's session before the event.
    pub open spec fn sender_before(self, now: u64, inbound: ServerInboundV) -> ClientV {
        value_of(self.with_sender(now, inbound).0.entries, inbound.sender).unwrap()
    }

    /// The sender's session after the event.
    pub open spec fn sender_after(self, now: u64, inbound: ServerInboundV) -> ClientV {
        client_heard(
            self.sender_before(now, inbound),
            now,
            inbound,
            self.oversized.enabled,
            self.streams.enabled,
        )
    }

    /// The state after an event of a client.
    pub open spec fn heard(self, now: u64, inbound: ServerInboundV) -> ServerStateV {
        ServerStateV {
            sessions: self.with_sender(now, inbound).0.updated(
                inbound.sender,
                self.sender_after(now, inbound),
            ),
            ..self
        }
    }

    /// Whether a transfer is accepted: one that opens, of a client that was not known to support
    /// oversized transfers before.
    pub open spec fn accepted_token(n: NotificationV, already_supported: bool) -> Option<Seq<char>> {
        if frame_of(n) matches Some(FrameV::Start { .. }) && !already_supported {
            notification_token(n)
        } else {
            None
        }
    }

    /// The `accept` of a transfer.
    pub open spec fn accept_reply(self, inbound: ServerInboundV, token: Seq<char>) -> Option<
        ReplyV,
    > {
        if !is_hex_key(inbound.sender) {
            None
        } else {
            Some(
                ReplyV {
                    message: MessageV::Notification(
                        progress_notification(
                            token,
                            ACCEPT_PROGRESS,
                            Some("oversized request accepted"@),
                            FrameV::Accept.cvm(),
                        ),
                    ),
                    recipient: lower_hex(inbound.sender),
                    tags: response_tags(
                        lower_hex(inbound.sender),
                        event_id_or_zeros(inbound.event_id),
                    ),
                    is_encrypted: inbound.is_encrypted(),
                    gift_wrap_kind: response_wrap(
                        self.gift_wrap,
                        inbound.is_encrypted(),
                        inbound.wrap_kind,
                    ),
                },
            )
        }
    }

    /// What an oversized frame calls for.
    pub open spec fn oversized_taken(
        self,
        now: u64,
        inbound: ServerInboundV,
        n: NotificationV,
        already_supported: bool,
    ) -> (ServerStateV, ServerActionV) {
        let accepted = ServerStateV::accepted_token(n, already_supported);
        let (peers, outcome) = self.peers.fed(now, inbound.sender, n, accepted);
        (
            ServerStateV { peers, ..self },
            ServerActionV::Oversized {
                accept: match accepted {
                    Some(token) => self.accept_reply(inbound, token),
                    None => None,
                },
                payload: match outcome {
                    Ok(Some(text)) => Some((text, notification_token(n))),
                    _ => None,
                },
            },
        )
    }

    /// A control frame that answers an event of a client, where there is one to be sent.
    pub open spec fn control(
        self,
        inbound: ServerInboundV,
        frame: Option<StreamFrameV>,
        token: Option<Seq<char>>,
    ) -> (ServerStateV, Seq<ReplyV>) {
        match (frame, token) {
            (Some(f), Some(t)) => {
                let (streams, reply) = self.streams.control_frame(
                    self.gift_wrap,
                    f,
                    t,
                    inbound.sender,
                    Some(inbound.event_id),
                    inbound.is_encrypted(),
                    inbound.wrap_kind,
                );
                (
                    ServerStateV { streams, ..self },
                    match reply {
                        Some(r) => seq![r],
                        None => Seq::empty(),
                    },
                )
            },
            _ => (self, Seq::empty()),
        }
    }

    /// What a frame that goes to the client's reader calls for: a `pong` for a probe, and an
    /// `accept` where the stream is to be accepted.
    pub open spec fn reader_taken(
        self,
        now: u64,
        inbound: ServerInboundV,
        n: NotificationV,
        accept: Option<Seq<char>>,
    ) -> (ServerStateV, Seq<ReplyV>) {
        let (streams, routed) = self.streams.fed(now, inbound.sender, n);
        let pong = match routed.result {
            Ok(OutcomeV::SendPong(nonce)) => Some(StreamFrameV::Pong { nonce }),
            _ => None,
        };
        let (s1, r1) = ServerStateV { streams, ..self }.control(
            inbound,
            pong,
            notification_token(n),
        );
        let (s2, r2) = s1.control(
            inbound,
            if accept is Some {
                Some(StreamFrameV::Accept)
            } else {
                None
            },
            accept,
        );
        (s2, r1 + r2)
    }

    /// What an open-stream frame calls for.
    pub open spec fn stream_taken(
        self,
        now: u64,
        inbound: ServerInboundV,
        n: NotificationV,
        client_supports: bool,
    ) -> (ServerStateV, ServerActionV) {
        match self.streams.routing(n, client_supports) {
            RoutingV::Writer { event_id, op } => (
                self,
                ServerActionV::Stream { op: Some((event_id, op)), replies: Seq::empty() },
            ),
            RoutingV::Reader => {
                let (s, replies) = self.reader_taken(now, inbound, n, None);
                (s, ServerActionV::Stream { op: None, replies })
            },
            RoutingV::ReaderThenAccept { token } => {
                let (s, replies) = self.reader_taken(now, inbound, n, Some(token));
                (s, ServerActionV::Stream { op: None, replies })
            },
        }
    }

    /// The state with the route of a request noted, and with a writer for a call of a tool that
    /// has a progress token.
    pub open spec fn routed(
        self,
        now: u64,
        inbound: ServerInboundV,
        id: JsonV,
        route_token: Option<Seq<char>>,
        writer_token: Option<Seq<char>>,
    ) -> ServerStateV {
        ServerStateV {
            wrap_kinds: self.wrap_kinds.insert(inbound.event_id, inbound.wrap_kind),
            routes: self.routes.registered(
                inbound.event_id,
                RouteV {
                    client_pubkey: inbound.sender,
                    original_request_id: id,
                    progress_token: route_token,
                    wrap_kind: None,
                    registered_at: now,
                },
            ),
            streams: match writer_token {
                Some(token) => if self.streams.enabled {
                    self.streams.with_writer(
                        inbound.event_id,
                        inbound.sender,
                        token,
                        id,
                        inbound.is_encrypted(),
                        inbound.wrap_kind,
                    )
                } else {
                    self.streams
                },
                None => self.streams,
            },
            ..self
        }
    }

    /// The state after a client has been noted to do something, where it is there.
    pub open spec fn with_client(self, client: Seq<char>, c: ClientV) -> ServerStateV {
        ServerStateV { sessions: self.sessions.updated(client, c), ..self }
    }

    /// What any other message calls for: it goes to the handler. A request is noted first, and so
    /// is that a session is open.
    pub open spec fn forwarded(self, now: u64, inbound: ServerInboundV, m: MessageV) -> (
        ServerStateV,
        ServerActionV,
    ) {
        let client = value_of(self.sessions.entries, inbound.sender).unwrap();
        let after = match m {
            MessageV::Request { id, .. } => {
                let token = request_token_text(m);
                self.with_client(
                    inbound.sender,
                    client_requested(client, inbound.event_id, id, token),
                ).routed(
                    now,
                    inbound,
                    id,
                    token,
                    if is_tool_call(m) {
                        token
                    } else {
                        None
                    },
                )
            },
            MessageV::Notification(n) => if n.method == NOTIFICATIONS_INITIALIZED_METHOD@ {
                self.with_client(inbound.sender, ClientV { is_initialized: true, ..client })
            } else {
                self
            },
            _ => self,
        };
        (
            after,
            ServerActionV::Forward(
                IncomingV {
                    message: m,
                    client_pubkey: inbound.sender,
                    event_id: inbound.event_id,
                    is_encrypted: inbound.is_encrypted(),
                },
            ),
        )
    }

    /// What a message of a client that is known calls for.
    pub open spec fn sorted(
        self,
        now: u64,
        inbound: ServerInboundV,
        m: MessageV,
        already_supported: bool,
        client_supports: bool,
    ) -> (ServerStateV, ServerActionV) {
        if self.oversized.enabled && m is Notification && looks_oversized(m->Notification_0) {
            self.oversized_taken(now, inbound, m->Notification_0, already_supported)
        } else if self.streams.enabled && m is Notification && looks_like_stream_frame(
            m->Notification_0,
        ) {
            self.stream_taken(now, inbound, m->Notification_0, client_supports)
        } else {
            self.forwarded(now, inbound, m)
        }
    }

    /// What a message of a client calls for, and who had to leave for the client.
    pub open spec fn received(self, now: u64, inbound: ServerInboundV, m: MessageV) -> (
        ServerStateV,
        Option<Seq<char>>,
        ServerActionV,
    ) {
        if !is_authorized(self.allowed, self.excluded, inbound.sender, m) {
            let (s, reply) = self.denied(inbound, m);
            (s, None, ServerActionV::Denied(reply))
        } else {
            let (s, action) = self.heard(now, inbound).sorted(
                now,
                inbound,
                m,
                self.sender_before(now, inbound).supports_oversized_transfer,
                self.sender_after(now, inbound).supports_open_stream,
            );
            (s, self.with_sender(now, inbound).1, action)
        }
    }

    /// What becomes of a payload that a client has sent in chunks: the message that it parses to
    /// goes to the handler, with its route noted.
    pub open spec fn reassembled(
        self,
        now: u64,
        inbound: ServerInboundV,
        token: Option<Seq<char>>,
        m: MessageV,
    ) -> (ServerStateV, IncomingV) {
        let id = match m.id() {
            Some(id) => id,
            None => JsonV::Null,
        };
        (
            self.routed(
                now,
                inbound,
                id,
                token,
                if is_tool_call(m) {
                    request_token_text(m)
                } else {
                    None
                },
            ),
            IncomingV {
                message: m,
                client_pubkey: inbound.sender,
                event_id: inbound.event_id,
                is_encrypted: inbound.is_encrypted(),
            },
        )
    }

    /// The kind of the gift wrap that carried the request `event_id`.
    pub open spec fn mirrored(self, event_id: Seq<char>) -> Option<u16> {
        if self.wrap_kinds.contains_key(event_id) {
            self.wrap_kinds[event_id]
        } else {
            None
        }
    }

    /// The tags that introduce the server to a client, the first time.
    pub open spec fn introduction(self, c: ClientV) -> Seq<Seq<Seq<char>>> {
        if c.has_sent_common_tags {
            Seq::empty()
        } else {
            self.manager.common_tags()
        }
    }

    /// What is to be done with a response along its route, which is then used up.
    pub open spec fn along_route(self, event_id: Seq<char>, route: RouteV, response: MessageV) -> (
        ServerStateV,
        ResponsePlanV,
    ) {
        let client = route.client_pubkey;
        let s = ServerStateV { routes: self.routes.popped(event_id), ..self };
        match value_of(self.sessions.entries, client) {
            None => (s, ResponsePlanV::Fail("No session for client "@ + client)),
            Some(c) => {
                let s2 = s.with_client(client, ClientV { has_sent_common_tags: true, ..c });
                if !is_hex_key(client) {
                    (s2, ResponsePlanV::Fail(public_key_error(client)))
                } else if !is_hex_key(event_id) {
                    (s2, ResponsePlanV::Fail(event_id_error(event_id)))
                } else {
                    let base_tags = response_tags(lower_hex(client), lower_hex(event_id));
                    (
                        s2,
                        ResponsePlanV::Send(
                            PreparedV {
                                event_id,
                                response: response.answered_as(route.original_request_id),
                                recipient: lower_hex(client),
                                base_tags,
                                tags: base_tags + self.introduction(c),
                                is_encrypted: c.is_encrypted,
                                gift_wrap_kind: response_wrap(
                                    self.gift_wrap,
                                    c.is_encrypted,
                                    self.mirrored(event_id),
                                ),
                                oversized_token: if self.oversized.enabled
                                    && c.supports_oversized_transfer {
                                    route.progress_token
                                } else {
                                    None
                                },
                                route,
                            },
                        ),
                    )
                }
            },
        }
    }

    /// What is to be done with a response that is not held back.
    pub open spec fn responded(self, event_id: Seq<char>, response: MessageV) -> (
        ServerStateV,
        ResponsePlanV,
    ) {
        match value_of(self.routes.routes, event_id) {
            None => (self, ResponsePlanV::Fail("No client found for event "@ + event_id)),
            Some(route) => self.along_route(event_id, route, response),
        }
    }

    /// What is to be done with a response of the handler.
    pub open spec fn response_plan(self, event_id: Seq<char>, response: MessageV) -> (
        ServerStateV,
        ResponsePlanV,
    ) {
        if !self.streams.enabled {
            self.responded(event_id, response)
        } else {
            let (streams, d) = self.streams.deferral(event_id, response);
            let s = ServerStateV { streams, ..self };
            match d {
                DeferralV::Deferred => (s, ResponsePlanV::Deferred),
                DeferralV::SendNow { snapshot, response } => (
                    s,
                    match deferred_reply(self.gift_wrap, event_id, snapshot, response) {
                        Ok(reply) => ResponsePlanV::Reply(reply),
                        Err(e) => ResponsePlanV::Fail(e),
                    },
                ),
                DeferralV::Passthrough(response) => s.responded(event_id, response),
            }
        }
    }

    /// What is to be done with a notification for a client.
    pub open spec fn notification_plan(
        self,
        client: Seq<char>,
        m: MessageV,
        correlated: Option<Seq<char>>,
    ) -> (ServerStateV, Result<ReplyV, Seq<char>>) {
        match value_of(self.sessions.entries, client) {
            None => (self, Err("No session for "@ + client)),
            Some(c) => {
                let s = self.with_client(client, ClientV { has_sent_common_tags: true, ..c });
                if !is_hex_key(client) {
                    (s, Err(public_key_error(client)))
                } else if correlated matches Some(id) && !is_hex_key(id) {
                    (s, Err(event_id_error(correlated.unwrap())))
                } else {
                    (
                        s,
                        Ok(
                            ReplyV {
                                message: m,
                                recipient: lower_hex(client),
                                tags: (match correlated {
                                    Some(id) => response_tags(lower_hex(client), lower_hex(id)),
                                    None => recipient_tags(lower_hex(client)),
                                }) + self.introduction(c),
                                is_encrypted: c.is_encrypted,
                                gift_wrap_kind: notification_wrap(
                                    self.gift_wrap,
                                    c.is_encrypted,
                                    match correlated {
                                        Some(id) => self.mirrored(id),
                                        None => None,
                                    },
                                    c.supports_ephemeral_gift_wrap,
                                ),
                            },
                        ),
                    )
                }
            },
        }
    }
}

/// The server end.
pub struct NostrServerTransport {
    config: NostrServerTransportConfig,
    announcement_manager: AnnouncementManager,
    common_tags: CommonTagsSnapshot,
    sessions: SessionStore,
    event_routes: ServerEventRouteStore,
    request_wrap_kinds: TextMap<Option<u16>>,
    seen_gift_wrap_ids: SeenIds,
    oversized_receiver: OversizedPeers,
    open_stream: ServerOpenStreamState,
}

impl View for NostrServerTransport {
    type V = ServerStateV;

    closed spec fn view(&self) -> ServerStateV {
        ServerStateV {
            encryption: self.config.encryption_mode,
            gift_wrap: self.config.gift_wrap_mode,
            announced: self.config.is_announced_server,
            allowed: texts(self.config.allowed_public_keys@),
            excluded: exclusion_views(self.config.excluded_capabilities@),
            oversized: self.config.oversized_transfer,
            session_timeout: self.config.session_timeout_ms,
            request_timeout: self.config.request_timeout_ms,
            manager: self.announcement_manager@,
            snapshot: self.common_tags@,
            sessions: self.sessions@,
            routes: self.event_routes@,
            wrap_kinds: self.request_wrap_kinds@,
            seen: self.seen_gift_wrap_ids@,
            peers: self.oversized_receiver@,
            streams: self.open_stream@,
        }
    }
}

impl NostrServerTransport {
    /// Whether the state is well formed.
    pub closed spec fn wf(&self) -> bool {
        &&& self.sessions.wf()
        &&& self.event_routes.wf()
        &&& self.seen_gift_wrap_ids.wf()
        &&& self.oversized_receiver.wf()
        &&& self.open_stream.wf()
    }

    /// What well-formedness means for the clients, the routes, the gift wraps that have been
    /// opened, the transfers and the streams.
    pub proof fn wf_facts(&self)
        requires
            self.wf(),
        ensures
            self@.sessions.bounded(),
            self@.routes.bounded(),
            self@.peers.bounded(),
            self@.streams.bounded(),
            keys_distinct(self@.seen),
            self@.seen.len() <= DEFAULT_LRU_SIZE,
    {
        self.seen_gift_wrap_ids.wf_facts();
        self.sessions.wf_facts();
        self.event_routes.wf_facts();
        self.oversized_receiver.wf_facts();
        self.open_stream.wf_facts();
    }

    /// What is to be done with an event of `kind` that a relay delivered. A gift wrap that has
    /// been opened before is dropped.
    pub fn screen_event(&self, kind: u16, event_id: &str) -> (r: Screening)
        requires
            self.wf(),
        ensures
            r == self@.screening(kind, event_id@),
    {
        if is_gift_wrap_kind(kind) {
            if !self.config.gift_wrap_mode.allows_kind(kind) {
                return Screening::Drop;
            }
            match self.config.encryption_mode {
                EncryptionMode::Disabled => {
                    return Screening::Drop;
                },
                _ => {},
            }
            if self.seen_gift_wrap_ids.contains(event_id) {
                return Screening::Drop;
            }
            Screening::Unwrap
        } else {
            match self.config.encryption_mode {
                EncryptionMode::Required => Screening::Drop,
                _ => Screening::Plain,
            }
        }
    }

    /// Takes what came out of the gift wrap `wrap_id` of kind `wrap_kind`: an event that parses and
    /// verifies is taken, and its gift wrap is not opened again.
    pub fn open_gift_wrap(&mut self, wrap_kind: u16, wrap_id: String, decrypted: &str) -> (r: Option<
        OpenedEvent,
    >)
        requires
            old(self).wf(),
        ensures
            final(self).wf(),
            (final(self)@, opt_opened(r)) == old(self)@.unwrapped(
                wrap_kind,
                wrap_id@,
                event_of(decrypted@),
                event_verifies(decrypted@),
            ),
            r matches Some(e) ==> is_hex_key(e.inbound@.sender) && is_hex_key(e.inbound@.event_id),
    {
        let inner = parse_event(decrypted);
        let verified = verify_event(decrypted);
        self.take_inner_event(wrap_kind, wrap_id, inner, verified)
    }

    /// Takes the event that came out of a gift wrap, given whether it verifies.
    pub fn take_inner_event(
        &mut self,
        wrap_kind: u16,
        wrap_id: String,
        inner: Option<EventParts>,
        verified: bool,
    ) -> (r: Option<OpenedEvent>)
        requires
            old(self).wf(),
        ensures
            final(self).wf(),
            (final(self)@, opt_opened(r)) == old(self)@.unwrapped(
                wrap_kind,
                wrap_id@,
                opt_parts(inner),
                verified,
            ),
    {
        match inner {
            Some(e) => {
                if !verified {
                    return None;
                }
                self.mark_unwrapped(wrap_id);
                Some(
                    OpenedEvent {
                        content: e.content,
                        inbound: ServerInbound {
                            sender_pubkey: e.pubkey,
                            event_id: e.event_id,
                            wrap_kind: Some(wrap_kind),
                            tags: e.tags,
                        },
                    },
                )
            },
            None => None,
        }
    }

    /// Notes that a gift wrap has been opened and its content verified.
    pub fn mark_unwrapped(&mut self, event_id: String)
        requires
            old(self).wf(),
        ensures
            final(self).wf(),
            final(self)@ == (ServerStateV { seen: noted(old(self)@.seen, event_id@), ..old(self)@ }),
    {
        self.seen_gift_wrap_ids.insert(event_id);
    }

    /// Whether a client is there, or can be let in.
    pub fn has_room_for(&self, client_pubkey: &str) -> (r: bool)
        requires
            self.wf(),
        ensures
            r == has_room(self@.sessions, self@.routes, client_pubkey@),
    {
        if self.sessions.contains(client_pubkey) {
            return true;
        }
        proof {
            self.wf_facts();
        }
        if self.sessions.has_free_place() || self.sessions.has_several_places() {
            return true;
        }
        let keys = self.sessions.client_keys();
        let last: usize = keys.len() - 1;
        !self.event_routes.has_active_routes_for_client(keys[last].as_str())
    }

    /// Whether a client may send a message.
    pub fn is_authorized(&self, client_pubkey: &str, message: &JsonRpcMessage) -> (r: bool)
        ensures
            r == is_authorized(self@.allowed, self@.excluded, client_pubkey@, message@),
    {
        authorize(
            &self.config.allowed_public_keys,
            &self.config.excluded_capabilities,
            client_pubkey,
            message,
        )
    }

    fn deny(&mut self, inbound: &ServerInbound, message: &JsonRpcMessage) -> (r: Option<Reply>)
        requires
            old(self).wf(),
        ensures
            final(self).wf(),
            (final(self)@, opt_reply(r)) == old(self)@.denied(inbound@, message@),
    {
        if !self.config.is_announced_server {
            return None;
        }
        let id = match message {
            JsonRpcMessage::Request(req) => &req.id,
            _ => {
                return None;
            },
        };
        let client = match public_key_from_hex(inbound.sender_pubkey.as_str()) {
            Ok(key) => key,
            Err(_) => {
                return None;
            },
        };
        let event_id = parse_event_id_or_zeros(inbound.event_id.as_str());
        let mut tags = create_response_tags(client.as_str(), event_id.as_str());
        let introduced = match self.sessions.get_session(inbound.sender_pubkey.as_str()) {
            Some(s) => s.has_sent_common_tags,
            None => false,
        };
        if !introduced {
            self.common_tags.append_common_response_tags(&mut tags);
            let _ = self.sessions.mark_common_tags_sent(inbound.sender_pubkey.as_str());
        }
        let is_encrypted = inbound.wrap_kind.is_some();
        Some(
            Reply {
                message: JsonRpcMessage::ErrorResponse(
                    JsonRpcErrorResponse {
                        jsonrpc: "2.0".to_owned(),
                        id: id.duplicate(),
                        error: JsonRpcError {
                            code: -32000,
                            message: "Unauthorized".to_owned(),
                            data: None,
                        },
                    },
                ),
                recipient: client,
                tags,
                is_encrypted,
                gift_wrap_kind: select_outbound_gift_wrap_kind(
                    self.config.gift_wrap_mode,
                    is_encrypted,
                    inbound.wrap_kind,
                ),
            },
        )
    }

    /// Notes an event of a client, which moves to the front. Returned are who had to leave,
    /// whether the client was known to support oversized transfers, and whether it is known to
    /// support open streams now.
    fn hear(&mut self, now: u64, inbound: &ServerInbound) -> (r: (Option<String>, bool, bool))
        requires
            old(self).wf(),
            has_room(old(self)@.sessions, old(self)@.routes, inbound@.sender),
        ensures
            final(self).wf(),
            final(self)@ == old(self)@.heard(now, inbound@),
            has_key(final(self)@.sessions.entries, inbound@.sender),
            opt_text(r.0) == old(self)@.with_sender(now, inbound@).1,
            r.1 == old(self)@.sender_before(now, inbound@).supports_oversized_transfer,
            r.2 == old(self)@.sender_after(now, inbound@).supports_open_stream,
    {
        let ghost before = self@;
        let ghost sender = inbound@.sender;
        let is_encrypted = inbound.wrap_kind.is_some();
        proof {
            self.wf_facts();
        }
        let mut evicted: Option<String> = None;
        if !self.sessions.contains(inbound.sender_pubkey.as_str()) {
            proof {
                let_in_is_there(
                    before.sessions,
                    before.routes,
                    sender,
                    inbound@.is_encrypted(),
                    now,
                );
            }
            evicted = self.sessions.let_in(
                inbound.sender_pubkey.as_str(),
                is_encrypted,
                &self.event_routes,
                now,
            );
        }
        let ghost there = self@.sessions;
        proof {
            self.sessions.wf_facts();
            without_facts(there.entries, sender);
        }
        match self.sessions.checkout(inbound.sender_pubkey.as_str()) {
            Some(s) => {
                let already = s.supports_oversized_transfer;
                let session = heard_session(
                    s,
                    now,
                    inbound,
                    self.config.oversized_transfer.enabled,
                    self.open_stream.is_enabled(),
                );
                let supports_stream = session.supports_open_stream;
                assert(session@ == before.sender_after(now, inbound@));
                proof {
                    front_facts(without(there.entries, sender), sender, session@);
                }
                self.sessions.restore(inbound.sender_pubkey.as_str(), session);
                (evicted, already, supports_stream)
            },
            None => {
                assert(false);
                (evicted, false, false)
            },
        }
    }

    fn accept_frame(&self, inbound: &ServerInbound, token: &str) -> (r: Option<Reply>)
        ensures
            opt_reply(r) == self@.accept_reply(inbound@, token@),
    {
        let client = match public_key_from_hex(inbound.sender_pubkey.as_str()) {
            Ok(key) => key,
            Err(_) => {
                return None;
            },
        };
        let event_id = parse_event_id_or_zeros(inbound.event_id.as_str());
        let accept = OversizedFrame::Accept.into_progress_notification(
            token,
            ACCEPT_PROGRESS,
            Some("oversized request accepted"),
        );
        let is_encrypted = inbound.wrap_kind.is_some();
        let tags = create_response_tags(client.as_str(), event_id.as_str());
        Some(
            Reply {
                message: JsonRpcMessage::Notification(accept),
                recipient: client,
                tags,
                is_encrypted,
                gift_wrap_kind: select_outbound_gift_wrap_kind(
                    self.config.gift_wrap_mode,
                    is_encrypted,
                    inbound.wrap_kind,
                ),
            },
        )
    }

    /// What an oversized frame calls for.
    pub fn handle_oversized_frame(
        &mut self,
        now: u64,
        inbound: &ServerInbound,
        notification: &JsonRpcNotification,
        already_supported: bool,
    ) -> (r: ServerAction)
        requires
            old(self).wf(),
        ensures
            final(self).wf(),
            (final(self)@, r@) == old(self)@.oversized_taken(
                now,
                inbound@,
                notification@,
                already_supported,
            ),
    {
        let token = token_of_notification(notification);
        let is_start = match frame_of_notification(notification) {
            Some(OversizedFrame::Start { .. }) => true,
            _ => false,
        };
        let issue = is_start && !already_supported;
        let mut accept: Option<Reply> = None;
        let mut accepted: Option<&str> = None;
        if issue {
            if let Some(t) = &token {
                accept = self.accept_frame(inbound, t.as_str());
                accepted = Some(t.as_str());
            }
        }
        assert(opt_str(accepted) == ServerStateV::accepted_token(notification@, already_supported));
        let outcome = self.oversized_receiver.feed(
            now,
            inbound.sender_pubkey.as_str(),
            notification,
            accepted,
        );
        let payload = match outcome {
            Ok(Some(text)) => Some(Payload { text, token }),
            _ => None,
        };
        ServerAction::Oversized { accept, payload }
    }

    fn push_control(
        &mut self,
        inbound: &ServerInbound,
        frame: Option<OpenStreamFrame>,
        token: &Option<String>,
        replies: &mut Vec<Reply>,
    )
        requires
            old(self).wf(),
        ensures
            final(self).wf(),
            ({
                let f = match frame {
                    Some(x) => Some(x@),
                    None => None,
                };
                let (s, more) = old(self)@.control(inbound@, f, opt_text(*token));
                &&& final(self)@ == s
                &&& reply_views(final(replies)@) == reply_views(old(replies)@) + more
            }),
    {
        let ghost before = replies@;
        if let Some(f) = frame {
            if let Some(t) = token {
                let reply = self.open_stream.open_stream_control_frame(
                    self.config.gift_wrap_mode,
                    &f,
                    t.as_str(),
                    inbound.sender_pubkey.as_str(),
                    Some(inbound.event_id.as_str()),
                    inbound.wrap_kind.is_some(),
                    inbound.wrap_kind,
                );
                match reply {
                    Some(r) => {
                        let ghost v = r@;
                        replies.push(r);
                        assert(reply_views(replies@) =~= reply_views(before) + seq![v]);
                    },
                    None => {
                        assert(reply_views(replies@) =~= reply_views(before)
                            + Seq::<ReplyV>::empty());
                    },
                }
                return;
            }
        }
        assert(reply_views(replies@) =~= reply_views(before) + Seq::<ReplyV>::empty());
    }

    fn feed_reader(
        &mut self,
        now: u64,
        inbound: &ServerInbound,
        notification: &JsonRpcNotification,
        accept: Option<String>,
    ) -> (r: Vec<Reply>)
        requires
            old(self).wf(),
        ensures
            final(self).wf(),
            (final(self)@, reply_views(r@)) == old(self)@.reader_taken(
                now,
                inbound@,
                notification@,
                opt_text(accept),
            ),
    {
        let fed = self.open_stream.feed_open_stream_reader(
            now,
            inbound.sender_pubkey.as_str(),
            notification,
        );
        let token = token_of_notification(notification);
        let mut replies: Vec<Reply> = Vec::new();
        assert(reply_views(replies@) =~= Seq::<ReplyV>::empty());
        let pong = match fed.pong {
            Some(nonce) => Some(OpenStreamFrame::Pong { nonce }),
            None => None,
        };
        self.push_control(inbound, pong, &token, &mut replies);
        let frame = if accept.is_some() {
            Some(OpenStreamFrame::Accept)
        } else {
            None
        };
        self.push_control(inbound, frame, &accept, &mut replies);
        replies
    }

    /// What an open-stream frame calls for.
    pub fn handle_open_stream_frame(
        &mut self,
        now: u64,
        inbound: &ServerInbound,
        notification: &JsonRpcNotification,
        client_supports_open_stream: bool,
    ) -> (r: ServerAction)
        requires
            old(self).wf(),
        ensures
            final(self).wf(),
            (final(self)@, r@) == old(self)@.stream_taken(
                now,
                inbound@,
                notification@,
                client_supports_open_stream,
            ),
    {
        match self.open_stream.handle_open_stream_frame(
            notification,
            client_supports_open_stream,
        ) {
            StreamRouting::Writer { event_id, op } => {
                let replies: Vec<Reply> = Vec::new();
                assert(reply_views(replies@) =~= Seq::<ReplyV>::empty());
                ServerAction::Stream { op: Some((event_id, op)), replies }
            },
            StreamRouting::Reader => {
                let replies = self.feed_reader(now, inbound, notification, None);
                ServerAction::Stream { op: None, replies }
            },
            StreamRouting::ReaderThenAccept { token } => {
                let replies = self.feed_reader(now, inbound, notification, Some(token));
                ServerAction::Stream { op: None, replies }
            },
        }
    }

    fn note_route(
        &mut self,
        now: u64,
        inbound: &ServerInbound,
        id: &Json,
        route_token: Option<String>,
        writer_token: &Option<String>,
    )
        requires
            old(self).wf(),
        ensures
            final(self).wf(),
            final(self)@ == old(self)@.routed(
                now,
                inbound@,
                id@,
                opt_text(route_token),
                opt_text(*writer_token),
            ),
    {
        let _ = self.request_wrap_kinds.insert(inbound.event_id.clone(), inbound.wrap_kind);
        self.event_routes.register(
            inbound.event_id.clone(),
            inbound.sender_pubkey.clone(),
            id.duplicate(),
            route_token,
            now,
        );
        if let Some(token) = writer_token {
            if self.open_stream.is_enabled() {
                self.open_stream.create_open_stream_writer(
                    inbound.event_id.as_str(),
                    inbound.sender_pubkey.as_str(),
                    token.as_str(),
                    id.duplicate(),
                    inbound.wrap_kind.is_some(),
                    inbound.wrap_kind,
                );
            }
        }
    }

    fn note_request(&mut self, now: u64, inbound: &ServerInbound, id: &Json, token: &Option<String>)
        requires
            old(self).wf(),
            has_key(old(self)@.sessions.entries, inbound@.sender),
        ensures
            final(self).wf(),
            final(self)@ == old(self)@.with_client(
                inbound@.sender,
                client_requested(
                    value_of(old(self)@.sessions.entries, inbound@.sender).unwrap(),
                    inbound@.event_id,
                    id@,
                    opt_text(*token),
                ),
            ),
    {
        let ghost there = self@.sessions;
        let ghost sender = inbound@.sender;
        proof {
            self.sessions.wf_facts();
            without_facts(there.entries, sender);
        }
        match self.sessions.checkout(inbound.sender_pubkey.as_str()) {
            Some(s) => {
                let mut session = s;
                let ghost c = session@;
                let _ = session.pending_requests.insert(inbound.event_id.clone(), id.duplicate());
                assert(session@.pending_requests =~= c.pending_requests.insert(
                    inbound@.event_id,
                    id@,
                ));
                if let Some(t) = token {
                    let ghost p = session@.pending_requests;
                    let _ = session.pending_requests.insert(
                        t.clone(),
                        text_value(inbound.event_id.as_str()),
                    );
                    let _ = session.event_to_progress_token.insert(
                        inbound.event_id.clone(),
                        t.clone(),
                    );
                    assert(session@.pending_requests =~= p.insert(
                        t@,
                        JsonV::Text(inbound@.event_id),
                    ));
                    assert(session@.event_to_progress_token =~= c.event_to_progress_token.insert(
                        inbound@.event_id,
                        t@,
                    ));
                }
                self.sessions.restore(inbound.sender_pubkey.as_str(), session);
            },
            None => {
                assert(false);
            },
        }
    }

    fn forward(&mut self, now: u64, inbound: &ServerInbound, message: JsonRpcMessage) -> (r:
        ServerAction)
        requires
            old(self).wf(),
            has_key(old(self)@.sessions.entries, inbound@.sender),
        ensures
            final(self).wf(),
            (final(self)@, r@) == old(self)@.forwarded(now, inbound@, message@),
    {
        match &message {
            JsonRpcMessage::Request(req) => {
                let token = token_of_request(&message);
                let writer_token = writer_token_of(&message);
                self.note_request(now, inbound, &req.id, &token);
                self.note_route(now, inbound, &req.id, token, &writer_token);
            },
            JsonRpcMessage::Notification(n) => {
                if same_text(n.method.as_str(), NOTIFICATIONS_INITIALIZED_METHOD) {
                    let _ = self.sessions.mark_initialized(inbound.sender_pubkey.as_str());
                }
            },
            _ => {},
        }
        ServerAction::Forward(
            IncomingRequest {
                message,
                client_pubkey: inbound.sender_pubkey.clone(),
                event_id: inbound.event_id.clone(),
                is_encrypted: inbound.wrap_kind.is_some(),
            },
        )
    }

    fn sort(
        &mut self,
        now: u64,
        inbound: &ServerInbound,
        message: JsonRpcMessage,
        already_supported: bool,
        client_supports: bool,
    ) -> (r: ServerAction)
        requires
            old(self).wf(),
            has_key(old(self)@.sessions.entries, inbound@.sender),
        ensures
            final(self).wf(),
            (final(self)@, r@) == old(self)@.sorted(
                now,
                inbound@,
                message@,
                already_supported,
                client_supports,
            ),
    {
        if let JsonRpcMessage::Notification(n) = &message {
            if self.config.oversized_transfer.enabled
                && OversizedTransferReceiver::is_oversized_frame(n) {
                return self.handle_oversized_frame(now, inbound, n, already_supported);
            }
            if self.open_stream.is_enabled() && OpenStreamReceiver::is_open_stream_frame(n) {
                return self.handle_open_stream_frame(now, inbound, n, client_supports);
            }
        }
        self.forward(now, inbound, message)
    }

    /// What a message of a client calls for.
    pub fn receive(&mut self, now: u64, inbound: &ServerInbound, message: JsonRpcMessage) -> (r:
        ServerReceived)
        requires
            old(self).wf(),
            is_authorized(old(self)@.allowed, old(self)@.excluded, inbound@.sender, message@)
                ==> has_room(old(self)@.sessions, old(self)@.routes, inbound@.sender),
        ensures
            final(self).wf(),
            (final(self)@, opt_text(r.evicted), r.action@) == old(self)@.received(
                now,
                inbound@,
                message@,
            ),
    {
        if !self.is_authorized(inbound.sender_pubkey.as_str(), &message) {
            let reply = self.deny(inbound, &message);
            return ServerReceived { evicted: None, action: ServerAction::Denied(reply) };
        }
        let (evicted, already, supports) = self.hear(now, inbound);
        let action = self.sort(now, inbound, message, already, supports);
        ServerReceived { evicted, action }
    }

    /// What becomes of a payload that a client has sent in chunks, once it has been parsed.
    pub fn dispatch_reassembled(
        &mut self,
        now: u64,
        inbound: &ServerInbound,
        token: Option<String>,
        message: JsonRpcMessage,
    ) -> (r: IncomingRequest)
        requires
            old(self).wf(),
        ensures
            final(self).wf(),
            (final(self)@, r@) == old(self)@.reassembled(
                now,
                inbound@,
                opt_text(token),
                message@,
            ),
    {
        let id = match message.id() {
            Some(id) => id.duplicate(),
            None => Json::Null,
        };
        let writer_token = writer_token_of(&message);
        self.note_route(now, inbound, &id, token, &writer_token);
        IncomingRequest {
            message,
            client_pubkey: inbound.sender_pubkey.clone(),
            event_id: inbound.event_id.clone(),
            is_encrypted: inbound.wrap_kind.is_some(),
        }
    }

    fn mirrored_kind(&self, event_id: &str) -> (r: Option<u16>)
        ensures
            r == self@.mirrored(event_id@),
    {
        match self.request_wrap_kinds.get(event_id) {
            Some(kind) => *kind,
            None => None,
        }
    }

    /// Takes a client as introduced. Returned are what is known of the client and the tags that
    /// introduce the server to it, the first time.
    fn introduce(&mut self, client: &str) -> (r: Option<(SessionSnapshot, Vec<Tag>)>)
        requires
            old(self).wf(),
        ensures
            final(self).wf(),
            match r {
                Some((snapshot, tags)) => {
                    &&& value_of(old(self)@.sessions.entries, client@) matches Some(c)
                    &&& final(self)@ == old(self)@.with_client(
                        client@,
                        ClientV { has_sent_common_tags: true, ..c },
                    )
                    &&& snapshot == c.snapshot()
                    &&& tag_views(tags@) == old(self)@.introduction(c)
                },
                None => value_of(old(self)@.sessions.entries, client@) is None && final(self)@
                    == old(self)@,
            },
    {
        match self.sessions.get_session(client) {
            Some(snapshot) => {
                let _ = self.sessions.mark_common_tags_sent(client);
                let tags = if snapshot.has_sent_common_tags {
                    let none: Vec<Tag> = Vec::new();
                    assert(tag_views(none@) =~= Seq::<Seq<Seq<char>>>::empty());
                    none
                } else {
                    self.announcement_manager.get_common_tags()
                };
                Some((snapshot, tags))
            },
            None => None,
        }
    }

    fn respond(&mut self, event_id: &str, response: JsonRpcMessage) -> (r: ResponsePlan)
        requires
            old(self).wf(),
        ensures
            final(self).wf(),
            (final(self)@, r@) == old(self)@.responded(event_id@, response@),
    {
        let route = match self.event_routes.pop(event_id) {
            Some(route) => route,
            None => {
                return ResponsePlan::Fail(join2("No client found for event ", event_id));
            },
        };
        let (snapshot, discovery) = match self.introduce(route.client_pubkey.as_str()) {
            Some(x) => x,
            None => {
                return ResponsePlan::Fail(
                    join2("No session for client ", route.client_pubkey.as_str()),
                );
            },
        };
        let response = response.answered_as(&route.original_request_id);
        let mirrored: Option<u16> = self.mirrored_kind(event_id);
        let recipient = match public_key_from_hex(route.client_pubkey.as_str()) {
            Ok(key) => key,
            Err(e) => {
                return ResponsePlan::Fail(e);
            },
        };
        let id = match event_id_from_hex(event_id) {
            Ok(id) => id,
            Err(e) => {
                return ResponsePlan::Fail(e);
            },
        };
        let base_tags = create_response_tags(recipient.as_str(), id.as_str());
        let tags = compose_outbound_tags(&base_tags, &discovery);
        let gift_wrap_kind = select_outbound_gift_wrap_kind(
            self.config.gift_wrap_mode,
            snapshot.is_encrypted,
            mirrored,
        );
        let oversized_token = if self.config.oversized_transfer.enabled
            && snapshot.supports_oversized_transfer {
            crate::text::clone_opt(&route.progress_token)
        } else {
            None
        };
        ResponsePlan::Send(
            PreparedResponse {
                event_id: event_id.to_owned(),
                response,
                recipient,
                base_tags,
                tags,
                is_encrypted: snapshot.is_encrypted,
                gift_wrap_kind,
                oversized_token,
                route,
            },
        )
    }

    /// What is to be done with a response of the handler.
    pub fn send_response(&mut self, event_id: &str, response: JsonRpcMessage) -> (r: ResponsePlan)
        requires
            old(self).wf(),
        ensures
            final(self).wf(),
            (final(self)@, r@) == old(self)@.response_plan(event_id@, response@),
    {
        if !self.open_stream.is_enabled() {
            return self.respond(event_id, response);
        }
        match self.open_stream.try_defer_open_stream_response(event_id, response) {
            OpenStreamDeferral::Deferred => ResponsePlan::Deferred,
            OpenStreamDeferral::SendNow { snapshot, response } => {
                match prepare_deferred_response(
                    self.config.gift_wrap_mode,
                    event_id,
                    &snapshot,
                    response,
                ) {
                    Ok(reply) => ResponsePlan::Reply(reply),
                    Err(e) => ResponsePlan::Fail(e),
                }
            },
            OpenStreamDeferral::Passthrough(response) => self.respond(event_id, response),
        }
    }

    /// Puts back the route of a response that could not be published, so that it can be tried
    /// again.
    pub fn response_failed(&mut self, prepared: PreparedResponse, now: u64)
        requires
            old(self).wf(),
        ensures
            final(self).wf(),
            final(self)@ == old(self)@.unsent(prepared@, now),
    {
        let PreparedResponse { event_id, route, .. } = prepared;
        self.event_routes.register(
            event_id,
            route.client_pubkey,
            route.original_request_id,
            route.progress_token,
            now,
        );
    }

    /// Forgets a request whose response has been published.
    pub fn response_sent(&mut self, prepared: &PreparedResponse)
        requires
            old(self).wf(),
        ensures
            final(self).wf(),
            final(self)@ == old(self)@.sent(prepared@),
    {
        let ghost there = self@.sessions;
        let ghost client = prepared@.route.client_pubkey;
        let _ = self.request_wrap_kinds.remove(prepared.event_id.as_str());
        proof {
            self.sessions.wf_facts();
            without_facts(there.entries, client);
        }
        if let Some(s) = self.sessions.checkout(prepared.route.client_pubkey.as_str()) {
            let mut session = s;
            let ghost c = session@;
            if let Some(token) = &prepared.route.progress_token {
                let _ = session.pending_requests.remove(token.as_str());
                assert(session@.pending_requests =~= c.pending_requests.remove(token@));
            }
            let ghost p = session@.pending_requests;
            let _ = session.event_to_progress_token.remove(prepared.event_id.as_str());
            let _ = session.pending_requests.remove(prepared.event_id.as_str());
            assert(session@.pending_requests =~= p.remove(prepared@.event_id));
            assert(session@.event_to_progress_token =~= c.event_to_progress_token.remove(
                prepared@.event_id,
            ));
            self.sessions.restore(prepared.route.client_pubkey.as_str(), session);
        }
    }

    /// What is to be done with a notification for a client.
    pub fn send_notification(
        &mut self,
        client_pubkey: &str,
        notification: &JsonRpcMessage,
        correlated_event_id: Option<&str>,
    ) -> (r: Result<Reply, String>)
        requires
            old(self).wf(),
        ensures
            final(self).wf(),
            ({
                let (s, plan) = old(self)@.notification_plan(
                    client_pubkey@,
                    notification@,
                    opt_str(correlated_event_id),
                );
                &&& final(self)@ == s
                &&& match r {
                    Ok(reply) => plan == Ok::<ReplyV, Seq<char>>(reply@),
                    Err(e) => plan == Err::<ReplyV, Seq<char>>(e@),
                }
            }),
    {
        let (snapshot, discovery) = match self.introduce(client_pubkey) {
            Some(x) => x,
            None => {
                return Err(join2("No session for ", client_pubkey));
            },
        };
        let recipient = match public_key_from_hex(client_pubkey) {
            Ok(key) => key,
            Err(e) => {
                return Err(e);
            },
        };
        let mut base_tags = create_recipient_tags(recipient.as_str());
        let mut mirrored: Option<u16> = None;
        if let Some(eid) = correlated_event_id {
            match event_id_from_hex(eid) {
                Ok(id) => {
                    push_tag(&mut base_tags, Tag::with_value("e", id.as_str()));
                    assert(tag_views(base_tags@) =~= response_tags(recipient@, id@));
                },
                Err(e) => {
                    return Err(e);
                },
            }
            mirrored = self.mirrored_kind(eid);
        }
        let tags = compose_outbound_tags(&base_tags, &discovery);
        Ok(
            Reply {
                message: notification.duplicate(),
                recipient,
                tags,
                is_encrypted: snapshot.is_encrypted,
                gift_wrap_kind: select_outbound_notification_gift_wrap_kind(
                    self.config.gift_wrap_mode,
                    snapshot.is_encrypted,
                    mirrored,
                    snapshot.supports_ephemeral_gift_wrap,
                ),
            },
        )
    }
}

/// An action of the keepalive check of the streams that clients have opened.
#[derive(Debug, PartialEq, Eq)]
pub enum SweepAction {
    /// This frame is to be sent.
    Send(Reply),
    /// The writer of this event is to perform this operation.
    Write(String, WriterOp),
}

/// Model of [`SweepAction`].
pub enum SweepActionV {
    Send(ReplyV),
    Write(Seq<char>, OpV),
}

impl View for SweepAction {
    type V = SweepActionV;

    open spec fn view(&self) -> SweepActionV {
        match self {
            SweepAction::Send(r) => SweepActionV::Send(r@),
            SweepAction::Write(id, op) => SweepActionV::Write(id@, op@),
        }
    }
}

/// The models of some actions.
pub open spec fn sweep_views(list: Seq<SweepAction>) -> Seq<SweepActionV> {
    Seq::new(list.len(), |i: int| list[i]@)
}

impl ServerStateV {
    /// What one keepalive action calls for: a probe goes to the client, and an abort to the
    /// writer that owns the token.
    pub open spec fn kept_alive(self, a: PeerActionV) -> (ServerStateV, Seq<SweepActionV>) {
        match a.action {
            KeepaliveV::SendPing(nonce) => {
                let (streams, reply) = self.streams.control_frame(
                    self.gift_wrap,
                    StreamFrameV::Ping { nonce },
                    a.token,
                    a.peer,
                    if self.streams.tokens.contains_key(a.token) {
                        Some(self.streams.tokens[a.token])
                    } else {
                        None
                    },
                    self.encryption != EncryptionMode::Disabled,
                    None,
                );
                (
                    ServerStateV { streams, ..self },
                    match reply {
                        Some(r) => seq![SweepActionV::Send(r)],
                        None => Seq::empty(),
                    },
                )
            },
            KeepaliveV::Abort(reason) => (
                self,
                match self.streams.writer_event(Some(a.token)) {
                    Some(id) => seq![SweepActionV::Write(id, OpV::Abort(Some(reason)))],
                    None => Seq::empty(),
                },
            ),
            KeepaliveV::Nothing => (self, Seq::empty()),
        }
    }

    /// What several keepalive actions call for, in their order.
    pub open spec fn all_kept_alive(self, due: Seq<PeerActionV>) -> (
        ServerStateV,
        Seq<SweepActionV>,
    )
        decreases due.len(),
    {
        if due.len() == 0 {
            (self, Seq::empty())
        } else {
            let (s, actions) = self.all_kept_alive(due.drop_last());
            let (t, more) = s.kept_alive(due.last());
            (t, actions + more)
        }
    }

    /// What a notification for several clients calls for, in their order. A client to which
    /// nothing can be sent is passed over.
    pub open spec fn broadcast(self, clients: Seq<Seq<char>>, m: MessageV) -> (
        ServerStateV,
        Seq<ReplyV>,
    )
        decreases clients.len(),
    {
        if clients.len() == 0 {
            (self, Seq::empty())
        } else {
            let (s, replies) = self.broadcast(clients.drop_last(), m);
            let (t, plan) = s.notification_plan(clients.last(), m, None);
            (
                t,
                match plan {
                    Ok(r) => replies.push(r),
                    Err(_) => replies,
                },
            )
        }
    }

    /// The state with the writer of an event replaced.
    pub open spec fn with_slot_writer(self, event_id: Seq<char>, writer: WriterV) -> ServerStateV {
        ServerStateV {
            streams: StreamsV {
                slots: self.streams.slots.insert(
                    event_id,
                    SlotV { writer, ..self.streams.slots[event_id] },
                ),
                ..self.streams
            },
            ..self
        }
    }

    /// The state after the `start` frame of the stream of an event has been published.
    pub open spec fn stream_started(self, event_id: Seq<char>) -> ServerStateV {
        if self.streams.slots.contains_key(event_id) {
            self.with_slot_writer(
                event_id,
                WriterV { started: true, ..self.streams.slots[event_id].writer },
            )
        } else {
            self
        }
    }

    /// What the end of the stream of an event calls for: the response that was held back, if any,
    /// goes out, if it can.
    pub open spec fn stream_ended(self, event_id: Seq<char>) -> (
        ServerStateV,
        Option<Result<ReplyV, Seq<char>>>,
    ) {
        let (streams, held_back) = self.streams.ended(event_id);
        (
            ServerStateV { streams, ..self },
            match held_back {
                Some((snapshot, response)) => Some(
                    deferred_reply(self.gift_wrap, event_id, snapshot, response),
                ),
                None => None,
            },
        )
    }

    /// The state without the transfers that are overdue.
    pub open spec fn transfers_swept(self, now: u64) -> ServerStateV {
        ServerStateV { peers: self.peers.swept(now), ..self }
    }

    /// The state with other tags of the server's own.
    pub open spec fn with_extra_tags(self, tags: Seq<Seq<Seq<char>>>) -> ServerStateV {
        ServerStateV { manager: ManagerV { extra: tags, ..self.manager }, ..self }
    }

    /// The state with other prices.
    pub open spec fn with_pricing_tags(self, tags: Seq<Seq<Seq<char>>>) -> ServerStateV {
        ServerStateV { manager: ManagerV { pricing: tags, ..self.manager }, ..self }
    }

    /// The state without the routes of `stale` requests, and what was kept of their gift wraps.
    pub open spec fn without_routes(self, stale: Seq<Seq<char>>) -> ServerStateV {
        ServerStateV {
            routes: self.routes.popped_all(stale),
            wrap_kinds: self.wrap_kinds.remove_keys(stale.to_set()),
            ..self
        }
    }

    /// The state without the clients that have been silent for more than `timeout`, and without
    /// the routes of their requests.
    pub open spec fn without_silent(self, now: u64, timeout: u64, stale: Seq<Seq<char>>) -> ServerStateV {
        (ServerStateV {
            sessions: self.sessions.without_silent(now, timeout),
            ..self
        }).without_routes(stale)
    }
}

proof fn clean_up_lookup(s: ServerStateV, now: u64)
    requires
        s.sessions.bounded(),
        s.routes.bounded(),
    ensures
        forall|k: Seq<char>| #[trigger]
            value_of(s.sessions.without_silent(now, s.session_timeout).entries, k) == (
            match value_of(s.sessions.entries, k) {
                Some(c) => if now > c.last_activity + s.session_timeout {
                    None
                } else {
                    Some(c)
                },
                None => None,
            }),
        forall|stale: Seq<Seq<char>>, id: Seq<char>|
            #![trigger value_of(
                s.without_silent(now, s.session_timeout, stale).without_routes(
                    s.without_silent(now, s.session_timeout, stale).routes.stale(
                        now,
                        s.request_timeout,
                    ),
                ).routes.routes,
                id,
            )]
            value_of(
                s.without_silent(now, s.session_timeout, stale).without_routes(
                    s.without_silent(now, s.session_timeout, stale).routes.stale(
                        now,
                        s.request_timeout,
                    ),
                ).routes.routes,
                id,
            ) == (match value_of(s.routes.routes, id) {
                Some(route) => if now >= route.registered_at + s.request_timeout
                    || s.request_timeout == 0 || stale.to_set().contains(id) {
                    None
                } else {
                    Some(route)
                },
                None => None,
            }),
{
    let keep = not_silent(now, s.session_timeout);
    assert forall|k: Seq<char>| #[trigger]
        value_of(s.sessions.without_silent(now, s.session_timeout).entries, k) == (match value_of(
            s.sessions.entries,
            k,
        ) {
            Some(c) => if now > c.last_activity + s.session_timeout {
                None
            } else {
                Some(c)
            },
            None => None,
        }) by {
        retain_lookup(s.sessions.entries, keep, k);
    }
    assert forall|stale: Seq<Seq<char>>, id: Seq<char>|
        #![trigger value_of(
            s.without_silent(now, s.session_timeout, stale).without_routes(
                s.without_silent(now, s.session_timeout, stale).routes.stale(
                    now,
                    s.request_timeout,
                ),
            ).routes.routes,
            id,
        )]
        value_of(
            s.without_silent(now, s.session_timeout, stale).without_routes(
                s.without_silent(now, s.session_timeout, stale).routes.stale(
                    now,
                    s.request_timeout,
                ),
            ).routes.routes,
            id,
        ) == (match value_of(s.routes.routes, id) {
            Some(route) => if now >= route.registered_at + s.request_timeout || s.request_timeout
                == 0 || stale.to_set().contains(id) {
                None
            } else {
                Some(route)
            },
            None => None,
        }) by {
        let t = s.without_silent(now, s.session_timeout, stale);
        let overdue = t.routes.stale(now, s.request_timeout);
        pop_keeps_other_routes(s.routes, stale);
        retain_lookup(s.routes.routes, not_among(stale.to_set()), id);
        retain_facts(s.routes.routes, not_among(stale.to_set()));
        pop_keeps_other_routes(t.routes, overdue);
        retain_lookup(t.routes.routes, not_among(overdue.to_set()), id);
        stale_routes_are_overdue(t.routes, now, s.request_timeout, id);
    }
}

/// How the frames of a response that goes out in chunks are sent: the first one with all tags, the
/// others with the addressing tags.
pub open spec fn chunked_replies(p: PreparedV, frames: Seq<NotificationV>) -> Seq<ReplyV> {
    Seq::new(
        frames.len(),
        |i: int|
            ReplyV {
                message: MessageV::Notification(frames[i]),
                recipient: p.recipient,
                tags: if i == 0 {
                    p.tags
                } else {
                    p.base_tags
                },
                is_encrypted: p.is_encrypted,
                gift_wrap_kind: p.gift_wrap_kind,
            },
    )
}

impl NostrServerTransport {
    /// A server end without clients.
    pub fn new(config: NostrServerTransportConfig) -> (r: Self)
        requires
            config.max_sessions <= usize::MAX / 128,
        ensures
            r.wf(),
            r@ == ServerStateV::fresh(config),
    {
        let info = match &config.server_info {
            Some(info) => Some(info.duplicate()),
            None => None,
        };
        let mut announcement_manager = AnnouncementManager::new(
            info,
            config.encryption_mode,
            config.gift_wrap_mode,
        );
        announcement_manager.set_internal_common_tags(internal_common_capability_tags(&config));
        let common_tags = announcement_manager.common_tags_snapshot();
        let policy = TransferPolicy::from(&config.oversized_transfer);
        let open_stream = ServerOpenStreamState::new(&config.open_stream, config.max_sessions);
        NostrServerTransport {
            announcement_manager,
            common_tags,
            sessions: SessionStore::with_capacity(config.max_sessions),
            event_routes: ServerEventRouteStore::new(),
            request_wrap_kinds: TextMap::new(),
            seen_gift_wrap_ids: SeenIds::new(),
            oversized_receiver: OversizedPeers::new(policy, config.max_sessions),
            open_stream,
            config,
        }
    }

    /// Fixes the tags with which clients that are refused get to know the server.
    pub fn start(&mut self)
        requires
            old(self).wf(),
        ensures
            final(self).wf(),
            final(self)@ == old(self)@.started(),
    {
        self.common_tags = self.announcement_manager.common_tags_snapshot();
    }

    /// Forgets everything about clients and requests, and dispatches no own requests any more.
    pub fn close(&mut self)
        requires
            old(self).wf(),
        ensures
            final(self).wf(),
            final(self)@ == old(self)@.closed(),
    {
        self.announcement_manager.shutdown();
        self.sessions.clear();
        self.event_routes.clear();
        self.oversized_receiver.clear();
        self.open_stream.clear();
    }

    /// Forgets the clients that have been silent for more than `timeout_ms`, and what was pending
    /// for them. Returns how many they were.
    pub fn cleanup_sessions(&mut self, now: u64, timeout_ms: u64) -> (r: usize)
        requires
            old(self).wf(),
        ensures
            final(self).wf(),
            r == old(self)@.sessions.entries.len() - final(self)@.sessions.entries.len(),
            exists|stale: Seq<Seq<char>>|
                stale.to_set() == old(self)@.sessions.stale_ids(now, timeout_ms) && final(self)@
                    == #[trigger] old(self)@.without_silent(now, timeout_ms, stale),
            final(self)@.routes.routes == retain(
                old(self)@.routes.routes,
                not_among(old(self)@.sessions.stale_ids(now, timeout_ms)),
            ),
    {
        let ghost before = self@;
        proof {
            self.wf_facts();
        }
        let (cleaned, stale) = self.sessions.expire(now, timeout_ms);
        proof {
            pop_keeps_other_routes(before.routes, texts(stale@));
        }
        let ghost at = self@;
        self.drop_wrap_kinds(&stale);
        let ghost names = texts(stale@);
        let mut i: usize = 0;
        assert(names.take(0) =~= Seq::<Seq<char>>::empty());
        while i < stale.len()
            invariant
                i <= stale@.len(),
                names == texts(stale@),
                self.wf(),
                self@ == (ServerStateV {
                    routes: at.routes.popped_all(names.take(i as int)),
                    wrap_kinds: at.wrap_kinds.remove_keys(names.to_set()),
                    ..at
                }),
            decreases stale@.len() - i,
        {
            assert(names[i as int] == stale@[i as int]@);
            let _ = self.event_routes.pop(stale[i].as_str());
            assert(names.take(i + 1).drop_last() =~= names.take(i as int));
            assert(names.take(i + 1).last() == names[i as int]);
            i = i + 1;
        }
        assert(names.take(i as int) =~= names);
        assert(self@ == before.without_silent(now, timeout_ms, names));
        cleaned
    }

    fn drop_wrap_kinds(&mut self, event_ids: &Vec<String>)
        requires
            old(self).wf(),
        ensures
            final(self).wf(),
            final(self)@ == (ServerStateV {
                wrap_kinds: old(self)@.wrap_kinds.remove_keys(texts(event_ids@).to_set()),
                ..old(self)@
            }),
    {
        let ghost before = self@;
        let ghost names = texts(event_ids@);
        let mut i: usize = 0;
        assert(before.wrap_kinds =~= before.wrap_kinds.remove_keys(names.take(0).to_set()));
        while i < event_ids.len()
            invariant
                i <= event_ids@.len(),
                names == texts(event_ids@),
                self.wf(),
                self@ == (ServerStateV {
                    wrap_kinds: before.wrap_kinds.remove_keys(names.take(i as int).to_set()),
                    ..before
                }),
            decreases event_ids@.len() - i,
        {
            let ghost seen = names.take(i as int);
            let ghost more = names.take(i + 1);
            let ghost name = names[i as int];
            assert(name == event_ids@[i as int]@);
            let _ = self.request_wrap_kinds.remove(event_ids[i].as_str());
            proof {
                assert(more =~= seen.push(name));
                assert forall|k: Seq<char>| more.to_set().contains(k) == (seen.to_set().contains(k)
                    || k == name) by {
                    if seen.contains(k) {
                        assert(more[seen.index_of(k)] == k);
                    }
                    assert(more[i as int] == name);
                }
                assert(before.wrap_kinds.remove_keys(seen.to_set()).remove(name)
                    =~= before.wrap_kinds.remove_keys(more.to_set()));
            }
            i = i + 1;
        }
        assert(names.take(i as int) =~= names);
    }

    /// Drops the routes of requests that have waited too long. Returns how many they were.
    pub fn sweep_stale_routes(&mut self, now: u64) -> (r: usize)
        requires
            old(self).wf(),
        ensures
            final(self).wf(),
            ({
                let stale = old(self)@.routes.stale(now, old(self)@.request_timeout);
                &&& r == stale.len()
                &&& final(self)@ == old(self)@.without_routes(stale)
            }),
    {
        let swept = self.event_routes.sweep_stale_routes(now, self.config.request_timeout_ms);
        self.drop_wrap_kinds(&swept);
        swept.len()
    }

    /// Forgets the clients that have been silent for too long, and the requests that have waited
    /// too long. Returns how many clients and how many requests they were.
    pub fn clean_up(&mut self, now: u64) -> (r: (usize, usize))
        requires
            old(self).wf(),
        ensures
            final(self).wf(),
            exists|stale: Seq<Seq<char>>|
                stale.to_set() == old(self)@.sessions.stale_ids(now, old(self)@.session_timeout) && {
                    let s = #[trigger] old(self)@.without_silent(
                        now,
                        old(self)@.session_timeout,
                        stale,
                    );
                    let overdue = s.routes.stale(now, s.request_timeout);
                    &&& final(self)@ == s.without_routes(overdue)
                    &&& r.1 == overdue.len()
                },
            r.0 == old(self)@.sessions.entries.len() - final(self)@.sessions.entries.len(),
            forall|k: Seq<char>| #[trigger]
                value_of(final(self)@.sessions.entries, k) == (match value_of(
                    old(self)@.sessions.entries,
                    k,
                ) {
                    Some(c) => if now > c.last_activity + old(self)@.session_timeout {
                        None
                    } else {
                        Some(c)
                    },
                    None => None,
                }),
            forall|id: Seq<char>| #[trigger]
                value_of(final(self)@.routes.routes, id) == (match value_of(
                    old(self)@.routes.routes,
                    id,
                ) {
                    Some(route) => if now >= route.registered_at + old(self)@.request_timeout
                        || old(self)@.request_timeout == 0 || old(self)@.sessions.stale_ids(
                        now,
                        old(self)@.session_timeout,
                    ).contains(id) {
                        None
                    } else {
                        Some(route)
                    },
                    None => None,
                }),
    {
        proof {
            self.wf_facts();
            clean_up_lookup(self@, now);
        }
        let cleaned = self.cleanup_sessions(now, self.config.session_timeout_ms);
        let swept = self.sweep_stale_routes(now);
        (cleaned, swept)
    }

    /// How often transfers from clients are looked through, in microseconds; never, where they
    /// are off or have no deadline.
    pub fn oversized_sweep_interval_us(&self) -> (r: Option<u64>)
        ensures
            match r {
                Some(us) => self@.oversized.enabled && self@.oversized.transfer_timeout_ms != 0
                    && us == sweep_period(self@.oversized.transfer_timeout_ms),
                None => !self@.oversized.enabled || self@.oversized.transfer_timeout_ms == 0,
            },
    {
        let c = &self.config.oversized_transfer;
        if c.enabled && c.transfer_timeout_ms != 0 {
            Some(sweep_interval_us(c.transfer_timeout_ms))
        } else {
            None
        }
    }

    /// How often the streams that clients have opened are looked through, in microseconds; never,
    /// where streams are off or have no idle timeout.
    pub fn open_stream_sweep_interval_us(&self) -> (r: Option<u64>)
        ensures
            match r {
                Some(us) => self@.streams.enabled && self@.streams.policy.idle_timeout_ms != 0
                    && us == sweep_period(self@.streams.policy.idle_timeout_ms),
                None => !self@.streams.enabled || self@.streams.policy.idle_timeout_ms == 0,
            },
    {
        let idle: u64 = self.open_stream.idle_timeout_ms();
        if self.open_stream.is_enabled() && idle != 0 {
            Some(sweep_interval_us(idle))
        } else {
            None
        }
    }

    /// Drops the transfers that are overdue at `now`.
    pub fn sweep_oversized_receivers(&mut self, now: u64)
        requires
            old(self).wf(),
        ensures
            final(self).wf(),
            final(self)@ == old(self)@.transfers_swept(now),
    {
        self.oversized_receiver.sweep_oversized_receivers(now);
    }

    fn keep_alive(&mut self, a: &PeerAction, out: &mut Vec<SweepAction>)
        requires
            old(self).wf(),
        ensures
            final(self).wf(),
            final(self)@ == old(self)@.kept_alive(a@).0,
            sweep_views(final(out)@) == sweep_views(old(out)@) + old(self)@.kept_alive(a@).1,
    {
        let ghost before = out@;
        match &a.action {
            KeepaliveAction::SendPing(nonce) => {
                let correlated = self.open_stream.event_id_for_token(a.token.as_str());
                let is_encrypted = match self.config.encryption_mode {
                    EncryptionMode::Disabled => false,
                    _ => true,
                };
                let reply = self.open_stream.open_stream_control_frame(
                    self.config.gift_wrap_mode,
                    &OpenStreamFrame::Ping { nonce: nonce.clone() },
                    a.token.as_str(),
                    a.peer.as_str(),
                    match &correlated {
                        Some(id) => Some(id.as_str()),
                        None => None,
                    },
                    is_encrypted,
                    None,
                );
                if let Some(r) = reply {
                    out.push(SweepAction::Send(r));
                    assert(sweep_views(out@) =~= sweep_views(before) + seq![
                        SweepActionV::Send(r@),
                    ]);
                } else {
                    assert(sweep_views(out@) =~= sweep_views(before)
                        + Seq::<SweepActionV>::empty());
                }
            },
            KeepaliveAction::Abort(reason) => {
                match self.open_stream.writer_event_of(&Some(a.token.clone())) {
                    Some(id) => {
                        out.push(SweepAction::Write(id, WriterOp::Abort(Some(reason.clone()))));
                        assert(sweep_views(out@) =~= sweep_views(before) + seq![
                            SweepActionV::Write(id@, OpV::Abort(Some(reason@))),
                        ]);
                    },
                    None => {
                        assert(sweep_views(out@) =~= sweep_views(before)
                            + Seq::<SweepActionV>::empty());
                    },
                }
            },
            KeepaliveAction::Nothing => {
                assert(sweep_views(out@) =~= sweep_views(before) + Seq::<SweepActionV>::empty());
            },
        }
    }

    /// Runs the keepalive check of every stream that a client has opened. Returned is what is to
    /// be done.
    pub fn sweep_open_stream_sessions(&mut self, now: u64) -> (r: Vec<SweepAction>)
        requires
            old(self).wf(),
        ensures
            final(self).wf(),
            exists|due: Seq<PeerActionV>|
                #[trigger] lists_due(due, old(self)@.streams.readers, now) && (
                final(self)@,
                sweep_views(r@),
            ) == (ServerStateV {
                    streams: StreamsV {
                        readers: swept_readers(old(self)@.streams.readers, now),
                        ..old(self)@.streams
                    },
                    ..old(self)@
                }).all_kept_alive(due),
    {
        let actions = self.open_stream.sweep_open_stream_sessions(now);
        let ghost at = self@;
        let ghost due = peer_actions(actions@);
        assert(lists_due(due, old(self)@.streams.readers, now));
        let mut out: Vec<SweepAction> = Vec::new();
        assert(sweep_views(out@) =~= Seq::<SweepActionV>::empty());
        let mut i: usize = 0;
        assert(due.take(0) =~= Seq::<PeerActionV>::empty());
        while i < actions.len()
            invariant
                i <= actions@.len(),
                due == peer_actions(actions@),
                self.wf(),
                (self@, sweep_views(out@)) == at.all_kept_alive(due.take(i as int)),
            decreases actions@.len() - i,
        {
            proof {
                assert(due[i as int] == actions@[i as int]@);
                assert(due.take(i + 1).drop_last() =~= due.take(i as int));
                assert(due.take(i + 1).last() == due[i as int]);
            }
            self.keep_alive(&actions[i], &mut out);
            i = i + 1;
        }
        assert(due.take(i as int) =~= due);
        out
    }

    /// The frames of a response that goes out in chunks of `chunk_size` bytes.
    pub fn send_oversized_response(
        &self,
        prepared: &PreparedResponse,
        serialized: &str,
        chunk_size: usize,
    ) -> (r: Result<Vec<Reply>, OversizedTransferError>)
        requires
            prepared.oversized_token is Some,
        ensures
            ({
                let token = prepared.oversized_token.unwrap()@;
                match build_refusal(serialized@, chunk_size as int, false) {
                    Some(refusal) => r matches Err(e) && e@ == refusal,
                    None => r matches Ok(replies) && reply_views(replies@) == chunked_replies(
                        prepared@,
                        transfer_frames(serialized@, token, chunk_size as int, false),
                    ),
                }
            }),
    {
        let token = match &prepared.oversized_token {
            Some(token) => token.as_str(),
            None => "",
        };
        let options = OversizedSenderOptions::new(token).with_chunk_size(chunk_size);
        let frames = match build_oversized_frames(serialized, &options) {
            Ok(built) => built.into_ordered(),
            Err(e) => {
                return Err(e);
            },
        };
        let ghost all = notifications(frames@);
        let mut replies: Vec<Reply> = Vec::new();
        let mut i: usize = 0;
        while i < frames.len()
            invariant
                i <= frames@.len(),
                all == notifications(frames@),
                replies@.len() == i,
                forall|j: int|
                    0 <= j < i ==> (#[trigger] replies@[j])@ == chunked_replies(prepared@, all)[j],
            decreases frames@.len() - i,
        {
            let tags = if i == 0 {
                clone_tags(&prepared.tags)
            } else {
                clone_tags(&prepared.base_tags)
            };
            assert(all[i as int] == frames@[i as int]@);
            replies.push(
                Reply {
                    message: JsonRpcMessage::Notification(frames[i].duplicate()),
                    recipient: prepared.recipient.clone(),
                    tags,
                    is_encrypted: prepared.is_encrypted,
                    gift_wrap_kind: prepared.gift_wrap_kind,
                },
            );
            i = i + 1;
        }
        assert(reply_views(replies@) =~= chunked_replies(prepared@, all));
        Ok(replies)
    }

    /// What is to be sent to pass a notification to every client that has opened its MCP session.
    pub fn broadcast_notification(&mut self, notification: &JsonRpcMessage) -> (r: Vec<Reply>)
        requires
            old(self).wf(),
        ensures
            final(self).wf(),
            (final(self)@, reply_views(r@)) == old(self)@.broadcast(
                initialized_keys(old(self)@.sessions.entries),
                notification@,
            ),
    {
        let ghost before = self@;
        let clients = self.sessions.initialized_clients();
        let ghost names = texts(clients@);
        let mut replies: Vec<Reply> = Vec::new();
        assert(reply_views(replies@) =~= Seq::<ReplyV>::empty());
        let mut i: usize = 0;
        assert(names.take(0) =~= Seq::<Seq<char>>::empty());
        while i < clients.len()
            invariant
                i <= clients@.len(),
                names == texts(clients@),
                self.wf(),
                (self@, reply_views(replies@)) == before.broadcast(
                    names.take(i as int),
                    notification@,
                ),
            decreases clients@.len() - i,
        {
            let ghost sent = reply_views(replies@);
            proof {
                assert(names[i as int] == clients@[i as int]@);
                assert(names.take(i + 1).drop_last() =~= names.take(i as int));
                assert(names.take(i + 1).last() == names[i as int]);
            }
            if let Ok(reply) = self.send_notification(clients[i].as_str(), notification, None) {
                let ghost v = reply@;
                replies.push(reply);
                assert(reply_views(replies@) =~= sent.push(v));
            }
            i = i + 1;
        }
        assert(names.take(i as int) =~= names);
        replies
    }

    /// What is known of a client.
    pub fn session_snapshot(&self, client_pubkey: &str) -> (r: Option<SessionSnapshot>)
        requires
            self.wf(),
        ensures
            r == (match value_of(self@.sessions.entries, client_pubkey@) {
                Some(c) => Some(c.snapshot()),
                None => None,
            }),
    {
        self.sessions.get_session(client_pubkey)
    }

    /// Sets the tags that are added to the common ones.
    pub fn set_announcement_extra_tags(&mut self, tags: Vec<Tag>)
        requires
            old(self).wf(),
        ensures
            final(self).wf(),
            final(self)@ == old(self)@.with_extra_tags(tag_views(tags@)),
    {
        self.announcement_manager.set_extra_common_tags(tags);
    }

    /// Sets the tags about pricing.
    pub fn set_announcement_pricing_tags(&mut self, tags: Vec<Tag>)
        requires
            old(self).wf(),
        ensures
            final(self).wf(),
            final(self)@ == old(self)@.with_pricing_tags(tag_views(tags@)),
    {
        self.announcement_manager.set_pricing_tags(tags);
    }

    /// The tags of the announcement of the server itself, for which it has to say who it is.
    pub fn announce(&mut self) -> (r: Option<Vec<Tag>>)
        requires
            old(self).wf(),
        ensures
            final(self).wf(),
            final(self)@ == old(self)@,
            match r {
                Some(tags) => old(self)@.manager.info is Some && tag_views(tags@)
                    == old(self)@.manager.announcement_tags(SERVER_ANNOUNCEMENT_KIND),
                None => old(self)@.manager.info is None,
            },
    {
        self.announcement_manager.announce()
    }

    /// The announcement of the tools.
    pub fn publish_tools(&self, tools: Vec<Json>) -> (r: Announcement)
        ensures
            r@ == list_announcement(self@.manager, TOOLS_LIST_KIND, "tools"@, tools@),
    {
        self.announcement_manager.publish_tools(tools)
    }

    /// The announcement of the resources.
    pub fn publish_resources(&self, resources: Vec<Json>) -> (r: Announcement)
        ensures
            r@ == list_announcement(self@.manager, RESOURCES_LIST_KIND, "resources"@, resources@),
    {
        self.announcement_manager.publish_resources(resources)
    }

    /// The announcement of the prompts.
    pub fn publish_prompts(&self, prompts: Vec<Json>) -> (r: Announcement)
        ensures
            r@ == list_announcement(self@.manager, PROMPTS_LIST_KIND, "prompts"@, prompts@),
    {
        self.announcement_manager.publish_prompts(prompts)
    }

    /// The announcement of the resource templates.
    pub fn publish_resource_templates(&self, templates: Vec<Json>) -> (r: Announcement)
        ensures
            r@ == list_announcement(
                self@.manager,
                RESOURCETEMPLATES_LIST_KIND,
                "resourceTemplates"@,
                templates@,
            ),
    {
        self.announcement_manager.publish_resource_templates(templates)
    }

    /// What a response to one of the server's own requests calls for.
    pub fn handle_announcement_response(&mut self, response: &JsonRpcMessage) -> (r: Reaction)
        requires
            old(self).wf(),
        ensures
            final(self).wf(),
            final(self)@ == (ServerStateV {
                manager: old(self)@.manager.reaction(response@).0,
                ..old(self)@
            }),
            r@ == old(self)@.manager.reaction(response@).1,
    {
        self.announcement_manager.handle_announcement_response(response)
    }

    /// The writer of an event, for the request's handler; none where open streams are off.
    pub fn get_open_stream_writer(&self, event_id: &str) -> (r: Option<&OpenStreamWriter>)
        ensures
            match r {
                Some(w) => self@.streams.enabled && self@.streams.slots.contains_key(event_id@)
                    && w@ == self@.streams.slots[event_id@].writer,
                None => !self@.streams.enabled || !self@.streams.slots.contains_key(event_id@),
            },
    {
        self.open_stream.get_open_stream_writer(event_id)
    }

    /// What comes next in an operation of the writer of an event.
    pub fn writer_step(&mut self, event_id: &str, op: &WriterOp) -> (r: Option<WriterStep>)
        requires
            old(self).wf(),
        ensures
            final(self).wf(),
            match r {
                Some(step) => old(self)@.streams.slots.contains_key(event_id@) && {
                    let slot = old(self)@.streams.slots[event_id@];
                    &&& step@ == slot.writer.step(op@).1
                    &&& final(self)@ == old(self)@.with_slot_writer(
                        event_id@,
                        slot.writer.step(op@).0,
                    )
                },
                None => !old(self)@.streams.slots.contains_key(event_id@) && final(self)@
                    == old(self)@,
            },
    {
        self.open_stream.writer_step(event_id, op)
    }

    /// A frame of the writer of an event, as it goes out.
    pub fn writer_frame(&self, event_id: &str, frame: JsonRpcNotification) -> (r: Option<Reply>)
        ensures
            opt_reply(r) == self@.streams.writer_reply(self@.gift_wrap, event_id@, frame@),
    {
        self.open_stream.writer_frame(self.config.gift_wrap_mode, event_id, frame)
    }

    /// Reports that the `start` frame of a writer has been published.
    pub fn start_published(&mut self, event_id: &str)
        requires
            old(self).wf(),
        ensures
            final(self).wf(),
            final(self)@ == old(self)@.stream_started(event_id@),
    {
        self.open_stream.start_published(event_id);
    }

    /// Reports that the frame of an operation of a writer has been published, or could not be.
    /// Returned is the end of the stream, if the operation ends it; the caller then sends what
    /// [`flush_open_stream_response`](Self::flush_open_stream_response) gives.
    pub fn writer_completed(&mut self, event_id: &str, op: &WriterOp, published: bool) -> (r:
        Option<StreamEnd>)
        requires
            old(self).wf(),
        ensures
            final(self).wf(),
            ({
                let (streams, end) = old(self)@.streams.completed(event_id@, op@, published);
                &&& final(self)@ == (ServerStateV { streams, ..old(self)@ })
                &&& opt_end(r) == end
            }),
    {
        self.open_stream.writer_completed(event_id, op, published)
    }

    /// Notes that the stream of an event has ended. Returned is the response that was held back,
    /// if any, as it goes out.
    pub fn flush_open_stream_response(&mut self, event_id: &str) -> (r: Option<
        Result<Reply, String>,
    >)
        requires
            old(self).wf(),
        ensures
            final(self).wf(),
            final(self)@ == old(self)@.stream_ended(event_id@).0,
            match old(self)@.stream_ended(event_id@).1 {
                Some(Ok(reply)) => r matches Some(Ok(x)) && x@ == reply,
                Some(Err(e)) => r matches Some(Err(x)) && x@ == e,
                None => r is None,
            },
    {
        match self.open_stream.flush_open_stream_response(event_id) {
            Some((snapshot, response)) => Some(
                prepare_deferred_response(
                    self.config.gift_wrap_mode,
                    event_id,
                    &snapshot,
                    response,
                ),
            ),
            None => None,
        }
    }
}

/// A client's session after an event of it.
fn heard_session(
    session: ClientSession,
    now: u64,
    inbound: &ServerInbound,
    oversized_enabled: bool,
    stream_enabled: bool,
) -> (r: ClientSession)
    ensures
        r@ == client_heard(session@, now, inbound@, oversized_enabled, stream_enabled),
{
    let mut session = session;
    let discovered = learn_peer_capabilities(&inbound.tags);
    session.last_activity = now;
    session.is_encrypted = inbound.wrap_kind.is_some();
    if let Some(kind) = inbound.wrap_kind {
        if kind == EPHEMERAL_GIFT_WRAP_KIND {
            session.supports_ephemeral_gift_wrap = true;
        }
    }
    session.supports_encryption = session.supports_encryption || discovered.supports_encryption;
    session.supports_ephemeral_encryption = session.supports_ephemeral_encryption
        || discovered.supports_ephemeral_encryption;
    session.supports_oversized_transfer = session.supports_oversized_transfer || (
    oversized_enabled && discovered.supports_oversized_transfer);
    session.supports_open_stream = session.supports_open_stream || (stream_enabled
        && discovered.supports_open_stream);
    session
}

/// The text of a request's progress token.
fn token_of_request(m: &JsonRpcMessage) -> (r: Option<String>)
    ensures
        opt_text(r) == request_token_text(m@),
{
    match m {
        JsonRpcMessage::Request(req) => match get_opt(
            get_opt(req.params.as_ref(), "_meta"),
            "progressToken",
        ) {
            Some(v) => progress_token_string(v),
            None => None,
        },
        _ => None,
    }
}

/// The progress token of a call of a tool.
fn writer_token_of(m: &JsonRpcMessage) -> (r: Option<String>)
    ensures
        opt_text(r) == if is_tool_call(m@) {
            request_token_text(m@)
        } else {
            None
        },
{
    let is_call = match m {
        JsonRpcMessage::Request(req) => same_text(req.method.as_str(), "tools/call"),
        _ => false,
    };
    if is_call {
        token_of_request(m)
    } else {
        None
    }
}

} // verus!
