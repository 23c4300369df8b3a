//! What the client end decides.
//!
//! [`NostrClientTransport`] keeps the client's state: pending requests, what is known of the
//! server, transfers in progress. For each message to be sent and each event that arrives it
//! decides what is to be done; the caller signs, encrypts, publishes, decrypts and parses.

use vstd::prelude::*;

use super::config::{relay_resolution_config, relay_sources, NostrClientTransportConfig};
use super::correlation_store::{still_pending, ClientCorrelationStore, PendingV};
use super::progress_tokens::{recorded, used, ProgressTokens};
use super::relay_resolution::{RelayResolutionConfig, SourcesV};
use super::server_identity::{identity_of, parse_server_identity, IdentityV, ServerIdentity};
use crate::constants::{
    default_bootstrap_relay_urls, BOOTSTRAP_RELAY_DAMUS, BOOTSTRAP_RELAY_NOS, BOOTSTRAP_RELAY_PRIMAL,
    DEFAULT_LRU_SIZE, EPHEMERAL_GIFT_WRAP_KIND, GIFT_WRAP_KIND, INITIALIZE_METHOD,
    NOTIFICATIONS_INITIALIZED_METHOD, SUPPORT_ENCRYPTION_EPHEMERAL, SUPPORT_OVERSIZED_TRANSFER,
};
use crate::json::{
    get_opt, members_view, object, opt_field, opt_json, push_member, text_value, Json, JsonV,
};
use crate::json_text::{json_member, json_member_text};
use crate::keys::{is_hex_key, lower_hex};
use crate::lru_cache::{has_key, in_front, pushed, value_of, without};
use crate::message::{
    opt_message, JsonRpcMessage, JsonRpcNotification, JsonRpcResponse, MessageV, NotificationV,
};
use crate::recency_map::{keys_distinct, retain, retain_lookup};
use crate::seen_ids::{noted, SeenIds};
use crate::signed_event::{
    event_of, event_verifies, opt_parts, parse_event, verify_event, EventParts, PartsV,
};
use crate::tag::{clone_tags, flag_tag, push_tag, tag_views, Tag};
use crate::text::{opt_str, opt_text, same_text};
use crate::text_set::TextSet;
use crate::transport::discovery_tags::{
    capabilities_of, discovery_tags_of, no_capabilities, parse_discovered_peer_capabilities,
    PeerCapabilities,
};
use crate::transport::oversized_transfer::codec::{
    build_oversized_frames, build_refusal, chunk_texts, start_frame, transfer_frames,
    OversizedSenderOptions,
};
use crate::transport::oversized_transfer::constants::{
    NOTIFICATIONS_PROGRESS_METHOD, START_PROGRESS,
};
use crate::transport::oversized_transfer::errors::{OversizedTransferError, TransferErrorV};
use crate::transport::oversized_transfer::frame::{
    frame_of, frame_of_notification, notification_round_trip, notification_token, param,
    progress_token_string, token_of_notification, token_text, FrameV, OversizedFrame,
};
use crate::transport::oversized_transfer::laws::orphan_frames_are_ignored;
use crate::transport::oversized_transfer::receiver::{
    about, is_expired, looks_oversized, outcome_of, progress_of, step, surface_message, Outcome,
    OversizedTransferReceiver, ReceiverV, TransferPolicy,
};
use crate::transport::oversized_transfer::sender::{OversizedSender, SenderV};
use crate::transport::oversized_transfer::OversizedTransferConfig;
use crate::transport::routing::{
    breaks_encryption_policy, compose_outbound_tags, create_recipient_tags, first_value,
    get_tag_value, is_gift_wrap_kind, recipient_tags, violates_encryption_policy,
};
use crate::transport::server::announcement_manager::{encryption_tag_list, encryption_tags};
use crate::types::{gift_wrap_kind, EncryptionMode, GiftWrapMode};

verus! {

/// An event that carried discovery tags.
#[derive(Debug, PartialEq, Eq)]
pub struct SourceEvent {
    /// Its id.
    pub event_id: String,
    /// Its content.
    pub content: String,
    /// Its tags.
    pub tags: Vec<Tag>,
}

/// Model of [`SourceEvent`].
pub struct SourceV {
    pub event_id: Seq<char>,
    pub content: Seq<char>,
    pub tags: Seq<Seq<Seq<char>>>,
}

impl View for SourceEvent {
    type V = SourceV;

    open spec fn view(&self) -> SourceV {
        SourceV {
            event_id: self.event_id@,
            content: self.content@,
            tags: tag_views(self.tags@),
        }
    }
}

/// The model of an optional event.
pub open spec fn opt_source(e: Option<SourceEvent>) -> Option<SourceV> {
    match e {
        Some(x) => Some(x@),
        None => None,
    }
}

/// A message from a peer, decrypted and verified where it was encrypted.
#[derive(Debug, PartialEq, Eq)]
pub struct InboundEvent {
    /// Its id.
    pub event_id: String,
    /// Its content.
    pub content: String,
    /// The sender's public key.
    pub pubkey: String,
    /// Its tags.
    pub tags: Vec<Tag>,
    /// Kind of the gift wrap that carried it, if it was encrypted.
    pub wrap_kind: Option<u16>,
}

/// Model of [`InboundEvent`].
pub struct InboundV {
    pub event_id: Seq<char>,
    pub content: Seq<char>,
    pub pubkey: Seq<char>,
    pub tags: Seq<Seq<Seq<char>>>,
    pub wrap_kind: Option<u16>,
}

impl InboundV {
    /// What is kept of an event that carried discovery tags.
    pub open spec fn source(self) -> SourceV {
        SourceV { event_id: self.event_id, content: self.content, tags: self.tags }
    }
}

impl View for InboundEvent {
    type V = InboundV;

    open spec fn view(&self) -> InboundV {
        InboundV {
            event_id: self.event_id@,
            content: self.content@,
            pubkey: self.pubkey@,
            tags: tag_views(self.tags@),
            wrap_kind: self.wrap_kind,
        }
    }
}

/// The model of an optional message from a peer.
pub open spec fn opt_inbound(e: Option<InboundEvent>) -> Option<InboundV> {
    match e {
        Some(x) => Some(x@),
        None => None,
    }
}

/// What is to be done with an event that a relay delivered.
#[derive(Clone, Copy, PartialEq, Eq, Structural, Debug)]
pub enum Screening {
    /// Drop it.
    Drop,
    /// Decrypt and verify it.
    Unwrap,
    /// Take it as it is.
    Plain,
}

/// How a message is to be sent.
#[derive(Debug, PartialEq, Eq)]
pub struct Outbound {
    /// The addressing tags.
    pub base_tags: Vec<Tag>,
    /// All tags of the first event.
    pub tags: Vec<Tag>,
    /// Kind of the gift wrap, if the message is encrypted.
    pub gift_wrap_kind: u16,
    /// Whether the discovery tags are among the tags.
    pub discovery_sent: bool,
    /// The progress token, if the message may be sent in chunks.
    pub oversized_token: Option<String>,
}

/// Model of [`Outbound`].
pub struct OutboundV {
    pub base_tags: Seq<Seq<Seq<char>>>,
    pub tags: Seq<Seq<Seq<char>>>,
    pub gift_wrap_kind: u16,
    pub discovery_sent: bool,
    pub oversized_token: Option<Seq<char>>,
}

impl View for Outbound {
    type V = OutboundV;

    open spec fn view(&self) -> OutboundV {
        OutboundV {
            base_tags: tag_views(self.base_tags@),
            tags: tag_views(self.tags@),
            gift_wrap_kind: self.gift_wrap_kind,
            discovery_sent: self.discovery_sent,
            oversized_token: opt_text(self.oversized_token),
        }
    }
}

/// What is to be done with a message that the consumer sends.
#[derive(Debug, PartialEq, Eq)]
pub enum SendPlan {
    /// Hand this answer to the consumer; nothing is sent.
    Answer(JsonRpcMessage),
    /// Nothing.
    Skip,
    /// Send it.
    Send(Outbound),
}

/// Model of [`SendPlan`].
pub enum PlanV {
    Answer(MessageV),
    Skip,
    Send(OutboundV),
}

impl View for SendPlan {
    type V = PlanV;

    open spec fn view(&self) -> PlanV {
        match self {
            SendPlan::Answer(m) => PlanV::Answer(m@),
            SendPlan::Skip => PlanV::Skip,
            SendPlan::Send(o) => PlanV::Send(o@),
        }
    }
}

/// What is to be done with a message from the server.
#[derive(Debug, PartialEq, Eq)]
pub enum Received {
    /// Nothing.
    Nothing,
    /// Release whoever waits for the `accept` of this transfer, and hand this progress, if any,
    /// to the consumer.
    Accepted { waiter: String, progress: Option<JsonRpcMessage> },
    /// Hand this message to the consumer.
    Deliver(JsonRpcMessage),
    /// A transfer is complete: parse its payload and report the result to
    /// [`NostrClientTransport::reassembled`].
    Reassembled { payload: String, token: Option<String>, correlated: Option<String> },
}

/// Model of [`Received`].
pub enum ReceivedV {
    Nothing,
    Accepted { waiter: Seq<char>, progress: Option<MessageV> },
    Deliver(MessageV),
    Reassembled { payload: Seq<char>, token: Option<Seq<char>>, correlated: Option<Seq<char>> },
}

impl View for Received {
    type V = ReceivedV;

    open spec fn view(&self) -> ReceivedV {
        match self {
            Received::Nothing => ReceivedV::Nothing,
            Received::Accepted { waiter, progress } => ReceivedV::Accepted {
                waiter: waiter@,
                progress: opt_message(*progress),
            },
            Received::Deliver(m) => ReceivedV::Deliver(m@),
            Received::Reassembled { payload, token, correlated } => ReceivedV::Reassembled {
                payload: payload@,
                token: opt_text(*token),
                correlated: opt_text(*correlated),
            },
        }
    }
}

/// Model of [`NostrClientTransport`].
pub struct ClientStateV {
    /// Whether messages are encrypted.
    pub encryption: EncryptionMode,
    /// Which gift wraps are used.
    pub gift_wrap: GiftWrapMode,
    /// Whether `initialize` is answered locally.
    pub stateless: bool,
    /// How long a request is remembered as pending.
    pub timeout_ms: u64,
    /// Configuration of oversized transfers.
    pub oversized: OversizedTransferConfig,
    /// The server's public key.
    pub server: Seq<char>,
    /// Where the server's relays may come from.
    pub relays: SourcesV,
    /// Pending requests by event id.
    pub pending: Seq<(Seq<char>, PendingV)>,
    /// Whether the discovery tags have been sent.
    pub has_sent_discovery_tags: bool,
    /// What the server is known to support.
    pub capabilities: PeerCapabilities,
    /// The event that is kept as the server's introduction.
    pub baseline: Option<SourceV>,
    /// Whether the server is known to understand ephemeral gift wraps.
    pub supports_ephemeral: bool,
    /// Gift wraps that have been opened.
    pub seen: Seq<(Seq<char>, ())>,
    /// Transfers in progress.
    pub receiver: ReceiverV,
    /// Tokens for whose `accept` somebody waits.
    pub waiters: Set<Seq<char>>,
    /// Tokens of sent requests as they were written.
    pub originals: Seq<(Seq<char>, JsonV)>,
}

/// Whether the text of a message holds the result of `initialize`.
pub open spec fn holds_initialize_result(content: Seq<char>) -> bool {
    match json_member_text(content, "result"@) {
        Some(result) => has_protocol_version(json_member_text(result, "protocolVersion"@)),
        None => false,
    }
}

/// Whether a result names a protocol version.
pub open spec fn has_protocol_version(member: Option<Seq<char>>) -> bool {
    member is Some
}

/// Whether the event kept as the server's introduction gives way to another: the first one is
/// kept until one comes that holds the result of `initialize` while the kept one does not.
pub open spec fn gives_way(kept_holds_result: bool, new_holds_result: bool) -> bool {
    !kept_holds_result && new_holds_result
}

/// Whether a tag's name is the ephemeral-encryption tag.
pub open spec fn names_ephemeral(tags: Seq<Seq<Seq<char>>>) -> bool {
    exists|i: int|
        0 <= i < tags.len() && (#[trigger] tags[i]).len() > 0 && tags[i][0]
            == SUPPORT_ENCRYPTION_EPHEMERAL@
}

/// The progress token of a request, in `params._meta.progressToken`.
pub open spec fn request_token(m: MessageV) -> Option<JsonV> {
    match m {
        MessageV::Request { params, .. } => opt_field(
            opt_field(params, "_meta"@),
            "progressToken"@,
        ),
        _ => None,
    }
}

/// The progress notification for the consumer that an oversized frame stands for: its progress,
/// total and message, under the token that the consumer knows.
pub open spec fn stripped(params: JsonV, token: JsonV) -> Option<MessageV> {
    match params.field("progress"@) {
        Some(progress) => Some(
            MessageV::Notification(
                NotificationV {
                    jsonrpc: "2.0"@,
                    method: NOTIFICATIONS_PROGRESS_METHOD@,
                    params: Some(
                        JsonV::Object(
                            seq![("progressToken"@, token), ("progress"@, progress)] + copied(
                                params,
                                "total"@,
                            ) + copied(params, "message"@),
                        ),
                    ),
                },
            ),
        ),
        None => None,
    }
}

/// A member that is copied where it is there.
pub open spec fn copied(params: JsonV, key: Seq<char>) -> Seq<(Seq<char>, JsonV)> {
    match params.field(key) {
        Some(v) => seq![(key, v)],
        None => Seq::empty(),
    }
}

/// The result of an `initialize` request that is answered locally.
pub open spec fn emulated_result(protocol_version: Seq<char>) -> JsonV {
    JsonV::Object(
        seq![
            ("protocolVersion"@, JsonV::Text(protocol_version)),
            (
                "serverInfo"@,
                JsonV::Object(
                    seq![
                        ("name"@, JsonV::Text("Emulated-Stateless-Server"@)),
                        ("version"@, JsonV::Text("1.0.0"@)),
                    ],
                ),
            ),
            (
                "capabilities"@,
                JsonV::Object(
                    seq![
                        ("tools"@, JsonV::Object(seq![("listChanged"@, JsonV::Bool(true))])),
                        ("prompts"@, JsonV::Object(seq![("listChanged"@, JsonV::Bool(true))])),
                        (
                            "resources"@,
                            JsonV::Object(
                                seq![
                                    ("subscribe"@, JsonV::Bool(true)),
                                    ("listChanged"@, JsonV::Bool(true)),
                                ],
                            ),
                        ),
                    ],
                ),
            ),
        ],
    )
}

impl ClientStateV {
    /// The state of a client of the given server that has sent and received nothing yet.
    pub open spec fn fresh(config: NostrClientTransportConfig, identity: IdentityV) -> ClientStateV {
        ClientStateV {
            encryption: config.encryption_mode,
            gift_wrap: config.gift_wrap_mode,
            stateless: config.is_stateless,
            timeout_ms: config.timeout_ms,
            oversized: config.oversized_transfer,
            server: identity.pubkey,
            relays: relay_sources(
                config,
                identity.relays,
                seq![BOOTSTRAP_RELAY_DAMUS@, BOOTSTRAP_RELAY_PRIMAL@, BOOTSTRAP_RELAY_NOS@],
            ),
            pending: Seq::empty(),
            has_sent_discovery_tags: false,
            capabilities: no_capabilities(),
            baseline: None,
            supports_ephemeral: false,
            seen: Seq::empty(),
            receiver: ReceiverV {
                policy: vstd::std_specs::convert::FromSpec::from_spec(&config.oversized_transfer),
                transfers: Map::empty(),
            },
            waiters: Set::empty(),
            originals: Seq::empty(),
        }
    }

    /// The tags by which the client says what it supports.
    pub open spec fn capability_tags(self) -> Seq<Seq<Seq<char>>> {
        encryption_tags(self.encryption, self.gift_wrap) + if self.oversized.enabled {
            seq![flag_tag(SUPPORT_OVERSIZED_TRANSFER@)]
        } else {
            Seq::empty()
        }
    }

    /// The discovery tags that are still to be sent.
    pub open spec fn pending_tags(self) -> Seq<Seq<Seq<char>>> {
        if self.has_sent_discovery_tags {
            Seq::empty()
        } else {
            self.capability_tags()
        }
    }

    /// The kind of gift wrap for messages to the server.
    pub open spec fn wrap_kind(self) -> u16 {
        match self.gift_wrap {
            GiftWrapMode::Persistent => GIFT_WRAP_KIND,
            GiftWrapMode::Ephemeral => EPHEMERAL_GIFT_WRAP_KIND,
            GiftWrapMode::Optional => if self.supports_ephemeral {
                EPHEMERAL_GIFT_WRAP_KIND
            } else {
                GIFT_WRAP_KIND
            },
        }
    }

    /// What is to be done with a message that the consumer sends, and the state afterwards.
    pub open spec fn send_plan(self, m: MessageV, protocol_version: Seq<char>) -> (
        ClientStateV,
        PlanV,
    ) {
        if self.stateless && m is Request && m->Request_method == INITIALIZE_METHOD@ {
            (
                self,
                PlanV::Answer(
                    MessageV::Response {
                        jsonrpc: "2.0"@,
                        id: m->Request_id,
                        result: emulated_result(protocol_version),
                    },
                ),
            )
        } else if self.stateless && m is Notification && m->Notification_0.method
            == NOTIFICATIONS_INITIALIZED_METHOD@ {
            (self, PlanV::Skip)
        } else {
            let discovery = if m is Request {
                self.pending_tags()
            } else {
                Seq::empty()
            };
            let original = if m is Request && self.oversized.enabled {
                request_token(m)
            } else {
                None
            };
            let token = match original {
                Some(v) => token_text(v),
                None => None,
            };
            (
                match token {
                    Some(t) => ClientStateV {
                        originals: recorded(self.originals, t, original.unwrap()),
                        ..self
                    },
                    None => self,
                },
                PlanV::Send(
                    OutboundV {
                        base_tags: recipient_tags(self.server),
                        tags: recipient_tags(self.server) + discovery,
                        gift_wrap_kind: self.wrap_kind(),
                        discovery_sent: discovery.len() > 0,
                        oversized_token: token,
                    },
                ),
            )
        }
    }

    /// The state after a request has been registered as pending; other messages are not.
    pub open spec fn registered(self, m: MessageV, event_id: Seq<char>, now: u64) -> ClientStateV {
        match m {
            MessageV::Request { id, method, .. } => ClientStateV {
                pending: pushed(
                    self.pending,
                    DEFAULT_LRU_SIZE as nat,
                    event_id,
                    PendingV {
                        original_id: id,
                        is_initialize: method == INITIALIZE_METHOD@,
                        registered_at: now,
                    },
                ),
                ..self
            },
            _ => self,
        }
    }

    /// The state after a message could not be published.
    pub open spec fn unpublished(self, event_id: Seq<char>) -> ClientStateV {
        ClientStateV { pending: without(self.pending, event_id), ..self }
    }

    /// The state after a message has been published, with or without the discovery tags.
    pub open spec fn published(self, discovery_sent: bool) -> ClientStateV {
        ClientStateV {
            has_sent_discovery_tags: self.has_sent_discovery_tags || discovery_sent,
            ..self
        }
    }

    /// What is to be done with an event of `kind` that a relay delivered.
    pub open spec fn screening(self, kind: u16, event_id: Seq<char>) -> Screening {
        if breaks_encryption_policy(kind, self.encryption) {
            Screening::Drop
        } else if !gift_wrap_kind(kind) {
            Screening::Plain
        } else if !self.gift_wrap.accepts(kind) || has_key(self.seen, event_id) {
            Screening::Drop
        } else {
            Screening::Unwrap
        }
    }

    /// The state after the wait for the `accept` of a transfer has ended.
    pub open spec fn unawaited(self, token: Seq<char>) -> ClientStateV {
        ClientStateV { waiters: self.waiters.remove(token), ..self }
    }

    /// The state after a request is begun to be sent in chunks: the `accept` of a server that is
    /// not known to support that is waited for.
    pub open spec fn upload_begun(self, token: Seq<char>) -> ClientStateV {
        if self.capabilities.supports_oversized_transfer {
            self
        } else {
            ClientStateV { waiters: self.waiters.insert(token), ..self }
        }
    }

    /// The sender of a request in chunks.
    pub open spec fn upload(self, content: Seq<char>, token: Seq<char>, chunk_size: int) -> SenderV {
        let needs_accept = !self.capabilities.supports_oversized_transfer;
        SenderV {
            frames: transfer_frames(content, token, chunk_size, needs_accept),
            token,
            needs_accept,
            has_waiter: needs_accept,
            published: 0,
            accepted: false,
            missed: false,
        }
    }

    /// The state of a client that is closed.
    pub open spec fn closed(self) -> ClientStateV {
        ClientStateV {
            receiver: ReceiverV { transfers: Map::empty(), ..self.receiver },
            waiters: Set::empty(),
            originals: Seq::empty(),
            ..self
        }
    }

    /// What becomes of what came out of a gift wrap: an event that verifies is taken, and its gift
    /// wrap is remembered.
    pub open spec fn unwrapped(
        self,
        wrap_kind: u16,
        wrap_id: Seq<char>,
        inner: Option<PartsV>,
        verified: bool,
    ) -> (ClientStateV, Option<InboundV>) {
        match inner {
            Some(e) => if verified {
                (
                    ClientStateV { seen: noted(self.seen, wrap_id), ..self },
                    Some(
                        InboundV {
                            event_id: e.event_id,
                            content: e.content,
                            pubkey: e.pubkey,
                            tags: e.tags,
                            wrap_kind: Some(wrap_kind),
                        },
                    ),
                )
            } else {
                (self, None)
            },
            None => (self, None),
        }
    }

    /// What the state learns from an event of the server.
    pub open spec fn learned(self, event: InboundV) -> ClientStateV {
        let found = capabilities_of(event.tags);
        let introduced = if discovery_tags_of(event.tags).len() == 0 {
            self
        } else {
            ClientStateV {
                capabilities: PeerCapabilities {
                    supports_encryption: self.capabilities.supports_encryption
                        || found.supports_encryption,
                    supports_ephemeral_encryption: self.capabilities.supports_ephemeral_encryption
                        || found.supports_ephemeral_encryption,
                    supports_oversized_transfer: self.capabilities.supports_oversized_transfer
                        || found.supports_oversized_transfer,
                    ..self.capabilities
                },
                baseline: match self.baseline {
                    None => Some(event.source()),
                    Some(kept) => if gives_way(
                        holds_initialize_result(kept.content),
                        holds_initialize_result(event.content),
                    ) {
                        Some(event.source())
                    } else {
                        Some(kept)
                    },
                },
                ..self
            }
        };
        ClientStateV {
            supports_ephemeral: self.supports_ephemeral || (event.pubkey == self.server && (
            event.wrap_kind == Some(EPHEMERAL_GIFT_WRAP_KIND) || names_ephemeral(event.tags))),
            ..introduced
        }
    }

    /// The progress for the consumer that a frame stands for, and the state afterwards: the
    /// consumer's own token counts as used, and where none is recorded the frame's is taken.
    pub open spec fn forwarded(self, n: NotificationV, token: Seq<char>) -> (
        ClientStateV,
        Option<MessageV>,
    ) {
        match n.params {
            None => (self, None),
            Some(params) => {
                let after = ClientStateV { originals: used(self.originals, token), ..self };
                let original = match value_of(self.originals, token) {
                    Some(v) => Some(v),
                    None => params.field("progressToken"@),
                };
                match original {
                    Some(t) => (after, stripped(params, t)),
                    None => (after, None),
                }
            },
        }
    }

    /// The state without the recorded token of a transfer.
    pub open spec fn token_dropped(self, token: Option<Seq<char>>) -> ClientStateV {
        match token {
            Some(t) => ClientStateV { originals: without(self.originals, t), ..self },
            None => self,
        }
    }

    /// What an `accept` frame calls for: where somebody waits for it, that wait is over, and the
    /// frame's progress is forwarded.
    pub open spec fn accept_taken(self, n: NotificationV, token: Option<Seq<char>>) -> (
        ClientStateV,
        ReceivedV,
    ) {
        match token {
            Some(t) => if self.waiters.contains(t) {
                let (after, progress) = ClientStateV {
                    waiters: self.waiters.remove(t),
                    ..self
                }.forwarded(n, t);
                (after, ReceivedV::Accepted { waiter: t, progress })
            } else {
                (self, ReceivedV::Nothing)
            },
            None => (self, ReceivedV::Nothing),
        }
    }

    /// What any other oversized frame calls for, given what the reassembly made of it: progress
    /// is forwarded while the transfer is tracked, a complete payload is handed out, and the
    /// token of a failed transfer is forgotten.
    pub open spec fn frame_taken(
        self,
        n: NotificationV,
        token: Option<Seq<char>>,
        e_tag: Option<Seq<char>>,
        outcome: Outcome,
    ) -> (ClientStateV, ReceivedV) {
        match outcome {
            Ok(None) => if token matches Some(t) && self.receiver.transfers.contains_key(t) {
                let (after, progress) = self.forwarded(n, token.unwrap());
                match progress {
                    Some(m) => (after, ReceivedV::Deliver(m)),
                    None => (after, ReceivedV::Nothing),
                }
            } else {
                (self, ReceivedV::Nothing)
            },
            Ok(Some(payload)) => (
                self,
                ReceivedV::Reassembled { payload, token, correlated: e_tag },
            ),
            Err(_) => (self.token_dropped(token), ReceivedV::Nothing),
        }
    }

    /// What an oversized frame calls for. One that is no `accept` keeps the request that it
    /// belongs to pending, and goes to the reassembly.
    pub open spec fn intercepted(self, now: u64, n: NotificationV, e_tag: Option<Seq<char>>) -> (
        ClientStateV,
        ReceivedV,
    ) {
        let token = notification_token(n);
        if frame_of(n) == Some(FrameV::Accept) {
            self.accept_taken(n, token)
        } else {
            let pending = match e_tag {
                Some(id) => touched(self.pending, id, now),
                None => self.pending,
            };
            let (transfers, outcome) = step(
                self.receiver.transfers,
                self.receiver.policy,
                now,
                n,
            );
            ClientStateV {
                pending,
                receiver: ReceiverV { transfers, ..self.receiver },
                ..self
            }.frame_taken(n, token, e_tag, outcome)
        }
    }

    /// What a message that is no oversized frame calls for: it has to answer a pending request
    /// if it names one, a response has to name one, and requests are not accepted.
    pub open spec fn gated(self, m: Option<MessageV>, e_tag: Option<Seq<char>>) -> (
        ClientStateV,
        ReceivedV,
    ) {
        if e_tag matches Some(id) && !has_key(self.pending, id) {
            (self, ReceivedV::Nothing)
        } else {
            match m {
                None => (self, ReceivedV::Nothing),
                Some(x) => if x is Request || (x.is_response() && e_tag is None) {
                    (self, ReceivedV::Nothing)
                } else {
                    (
                        match e_tag {
                            Some(id) => ClientStateV { pending: without(self.pending, id), ..self },
                            None => self,
                        },
                        ReceivedV::Deliver(x),
                    )
                },
            }
        }
    }

    /// What a message calls for, given what its content parses to.
    pub open spec fn received(
        self,
        now: u64,
        event: InboundV,
        notification: Option<NotificationV>,
        message: Option<MessageV>,
    ) -> (ClientStateV, ReceivedV) {
        if event.pubkey != self.server {
            (self, ReceivedV::Nothing)
        } else {
            let s = self.learned(event);
            let e_tag = first_value(event.tags, "e"@);
            if notification matches Some(n) && is_progress_frame(n) {
                s.intercepted(now, notification.unwrap(), e_tag)
            } else {
                s.gated(message, e_tag)
            }
        }
    }

    /// What becomes of a complete transfer, given what its payload parses to.
    pub open spec fn completed(
        self,
        token: Option<Seq<char>>,
        correlated: Option<Seq<char>>,
        parsed: Option<MessageV>,
    ) -> (ClientStateV, Option<MessageV>) {
        let dropped = self.token_dropped(token);
        match parsed {
            Some(m) => (
                match correlated {
                    Some(id) => ClientStateV { pending: without(dropped.pending, id), ..dropped },
                    None => dropped,
                },
                Some(m),
            ),
            None => (dropped, None),
        }
    }
}

/// Whether a notification is progress that carries something of the shape of an oversized frame.
pub open spec fn is_progress_frame(n: NotificationV) -> bool {
    n.method == NOTIFICATIONS_PROGRESS_METHOD@ && looks_oversized(n)
}

/// The pending requests after one has been touched.
pub open spec fn touched(pending: Seq<(Seq<char>, PendingV)>, id: Seq<char>, now: u64) -> Seq<
    (Seq<char>, PendingV),
> {
    match value_of(pending, id) {
        Some(p) => in_front(pending, id, PendingV { registered_at: now, ..p }),
        None => pending,
    }
}

/// The client end.
pub struct NostrClientTransport {
    config: NostrClientTransportConfig,
    server_pubkey: String,
    relays: RelayResolutionConfig,
    pending_requests: ClientCorrelationStore,
    has_sent_discovery_tags: bool,
    discovered_server_capabilities: PeerCapabilities,
    server_initialize_event: Option<SourceEvent>,
    server_supports_ephemeral: bool,
    seen_gift_wrap_ids: SeenIds,
    oversized_receiver: OversizedTransferReceiver,
    accept_waiters: TextSet,
    original_progress_tokens: ProgressTokens,
}

impl View for NostrClientTransport {
    type V = ClientStateV;

    closed spec fn view(&self) -> ClientStateV {
        ClientStateV {
            encryption: self.config.encryption_mode,
            gift_wrap: self.config.gift_wrap_mode,
            stateless: self.config.is_stateless,
            timeout_ms: self.config.timeout_ms,
            oversized: self.config.oversized_transfer,
            server: self.server_pubkey@,
            relays: self.relays@,
            pending: self.pending_requests@,
            has_sent_discovery_tags: self.has_sent_discovery_tags,
            capabilities: self.discovered_server_capabilities,
            baseline: opt_source(self.server_initialize_event),
            supports_ephemeral: self.server_supports_ephemeral,
            seen: self.seen_gift_wrap_ids@,
            receiver: self.oversized_receiver@,
            waiters: self.accept_waiters@,
            originals: self.original_progress_tokens@,
        }
    }
}

/// Whether an event's content holds the result of `initialize`.
pub fn event_has_initialize_result(content: &str) -> (r: bool)
    ensures
        r == holds_initialize_result(content@),
{
    match json_member(content, "result") {
        Some(result) => names_protocol_version(&json_member(result.as_str(), "protocolVersion")),
        None => false,
    }
}

/// Whether a result names a protocol version, given that member.
pub fn names_protocol_version(member: &Option<String>) -> (r: bool)
    ensures
        r == has_protocol_version(opt_text(*member)),
{
    member.is_some()
}

/// Whether a tag's name is the ephemeral-encryption tag.
pub fn has_support_ephemeral_tag(tags: &Vec<Tag>) -> (r: bool)
    ensures
        r == names_ephemeral(tag_views(tags@)),
{
    let ghost all = tag_views(tags@);
    let mut i: usize = 0;
    while i < tags.len()
        invariant
            i <= tags@.len(),
            all == tag_views(tags@),
            forall|j: int|
                0 <= j < i ==> !((#[trigger] all[j]).len() > 0 && all[j][0]
                    == SUPPORT_ENCRYPTION_EPHEMERAL@),
        decreases tags@.len() - i,
    {
        let parts = &tags[i].parts;
        proof {
            assert(all[i as int].len() == parts@.len());
            if parts@.len() > 0 {
                assert(all[i as int][0] == parts@[0]@);
            }
        }
        if parts.len() > 0 && same_text(parts[0].as_str(), SUPPORT_ENCRYPTION_EPHEMERAL) {
            return true;
        }
        i = i + 1;
    }
    false
}

/// Whether a message shows that the server understands ephemeral gift wraps.
pub fn should_learn_ephemeral_support(
    actual_pubkey: &str,
    server_pubkey: &str,
    event_kind: Option<u16>,
    tags: &Vec<Tag>,
) -> (r: bool)
    ensures
        r == (actual_pubkey@ == server_pubkey@ && (event_kind == Some(EPHEMERAL_GIFT_WRAP_KIND)
            || names_ephemeral(tag_views(tags@)))),
{
    if !same_text(actual_pubkey, server_pubkey) {
        return false;
    }
    if let Some(kind) = event_kind {
        if kind == EPHEMERAL_GIFT_WRAP_KIND {
            return true;
        }
    }
    has_support_ephemeral_tag(tags)
}

fn push_copy(members: &mut Vec<(String, Json)>, params: &Json, key: &str)
    ensures
        members_view(final(members)@) == members_view(old(members)@) + copied(params@, key@),
{
    let ghost before = members_view(members@);
    if let Some(v) = params.get(key) {
        push_member(members, key, v.duplicate());
    }
    assert(members_view(members@) =~= before + copied(params@, key@));
}

/// The progress notification for the consumer that an oversized frame stands for.
pub fn stripped_progress_notification(params: &Json, original_token: &Json) -> (r: Option<
    JsonRpcMessage,
>)
    ensures
        opt_message(r) == stripped(params@, original_token@),
{
    let progress = match params.get("progress") {
        Some(p) => p.duplicate(),
        None => {
            return None;
        },
    };
    let mut members: Vec<(String, Json)> = Vec::new();
    let ghost p = progress@;
    push_member(&mut members, "progressToken", original_token.duplicate());
    push_member(&mut members, "progress", progress);
    assert(members_view(members@) =~= seq![
        ("progressToken"@, original_token@),
        ("progress"@, p),
    ]);
    push_copy(&mut members, params, "total");
    push_copy(&mut members, params, "message");
    Some(
        JsonRpcMessage::Notification(
            JsonRpcNotification {
                jsonrpc: "2.0".to_owned(),
                method: NOTIFICATIONS_PROGRESS_METHOD.to_owned(),
                params: Some(object(members)),
            },
        ),
    )
}

fn flag_object(first: &str, second: Option<&str>) -> (r: Json)
    ensures
        r@ == JsonV::Object(
            match second {
                Some(s) => seq![(first@, JsonV::Bool(true)), (s@, JsonV::Bool(true))],
                None => seq![(first@, JsonV::Bool(true))],
            },
        ),
{
    let mut members: Vec<(String, Json)> = Vec::new();
    push_member(&mut members, first, Json::Bool(true));
    if let Some(s) = second {
        push_member(&mut members, s, Json::Bool(true));
    }
    assert(members_view(members@) =~= match second {
        Some(s) => seq![(first@, JsonV::Bool(true)), (s@, JsonV::Bool(true))],
        None => seq![(first@, JsonV::Bool(true))],
    });
    object(members)
}

/// The answer to an `initialize` request that is not sent.
pub fn emulate_initialize_response(request_id: &Json, protocol_version: &str) -> (r: JsonRpcMessage)
    ensures
        r@ == (MessageV::Response {
            jsonrpc: "2.0"@,
            id: request_id@,
            result: emulated_result(protocol_version@),
        }),
{
    let mut info: Vec<(String, Json)> = Vec::new();
    push_member(&mut info, "name", text_value("Emulated-Stateless-Server"));
    push_member(&mut info, "version", text_value("1.0.0"));
    assert(members_view(info@) =~= seq![
        ("name"@, JsonV::Text("Emulated-Stateless-Server"@)),
        ("version"@, JsonV::Text("1.0.0"@)),
    ]);
    let mut capabilities: Vec<(String, Json)> = Vec::new();
    push_member(&mut capabilities, "tools", flag_object("listChanged", None));
    push_member(&mut capabilities, "prompts", flag_object("listChanged", None));
    push_member(&mut capabilities, "resources", flag_object("subscribe", Some("listChanged")));
    assert(members_view(capabilities@) =~= seq![
        ("tools"@, JsonV::Object(seq![("listChanged"@, JsonV::Bool(true))])),
        ("prompts"@, JsonV::Object(seq![("listChanged"@, JsonV::Bool(true))])),
        (
            "resources"@,
            JsonV::Object(
                seq![("subscribe"@, JsonV::Bool(true)), ("listChanged"@, JsonV::Bool(true))],
            ),
        ),
    ]);
    let mut members: Vec<(String, Json)> = Vec::new();
    push_member(&mut members, "protocolVersion", text_value(protocol_version));
    push_member(&mut members, "serverInfo", object(info));
    push_member(&mut members, "capabilities", object(capabilities));
    assert(members_view(members@) =~= emulated_result(protocol_version@)->Object_0);
    JsonRpcMessage::Response(
        JsonRpcResponse {
            jsonrpc: "2.0".to_owned(),
            id: request_id.duplicate(),
            result: object(members),
        },
    )
}

impl NostrClientTransport {
    /// Whether the state is well formed.
    pub closed spec fn wf(&self) -> bool {
        &&& self.pending_requests.wf()
        &&& self.pending_requests.capacity() == DEFAULT_LRU_SIZE
        &&& self.seen_gift_wrap_ids.wf()
        &&& self.original_progress_tokens.wf()
    }

    /// What well-formedness means for the pending requests, the gift wraps that have been opened
    /// and the tokens.
    pub proof fn wf_facts(&self)
        requires
            self.wf(),
        ensures
            keys_distinct(self@.pending),
            self@.pending.len() <= DEFAULT_LRU_SIZE,
            keys_distinct(self@.seen),
            self@.seen.len() <= DEFAULT_LRU_SIZE,
            keys_distinct(self@.originals),
            self@.originals.len() <= DEFAULT_LRU_SIZE,
    {
        self.pending_requests.wf_facts();
        self.seen_gift_wrap_ids.wf_facts();
        self.original_progress_tokens.wf_facts();
    }

    /// A client of the server that the configuration names; it has sent and received nothing yet.
    /// A configuration that names no server is refused.
    pub fn new(config: NostrClientTransportConfig) -> (r: Result<Self, String>)
        ensures
            match identity_of(config.server_pubkey@) {
                Ok(identity) => r matches Ok(t) && t.wf() && t@ == ClientStateV::fresh(
                    config,
                    identity,
                ),
                Err(e) => r matches Err(x) && x@ == e,
            },
            r matches Ok(t) ==> is_hex_key(t@.server) && lower_hex(t@.server) == t@.server,
    {
        match parse_server_identity(config.server_pubkey.as_str()) {
            Ok(identity) => Ok(NostrClientTransport::with_identity(config, identity)),
            Err(e) => Err(e),
        }
    }

    /// A client of a given server that has sent and received nothing yet.
    pub fn with_identity(config: NostrClientTransportConfig, identity: ServerIdentity) -> (r: Self)
        ensures
            r.wf(),
            r@ == ClientStateV::fresh(config, identity@),
    {
        let policy = TransferPolicy::from(&config.oversized_transfer);
        let relays = relay_resolution_config(
            &config,
            &identity.relay_urls,
            &default_bootstrap_relay_urls(),
        );
        NostrClientTransport {
            config,
            server_pubkey: identity.pubkey,
            relays,
            pending_requests: ClientCorrelationStore::new(),
            has_sent_discovery_tags: false,
            discovered_server_capabilities: PeerCapabilities::default(),
            server_initialize_event: None,
            server_supports_ephemeral: false,
            seen_gift_wrap_ids: SeenIds::new(),
            oversized_receiver: OversizedTransferReceiver::with_policy(policy),
            accept_waiters: TextSet::new(),
            original_progress_tokens: ProgressTokens::new(),
        }
    }

    /// The server's public key, in lower-case hexadecimal.
    pub fn server_pubkey(&self) -> (r: &str)
        ensures
            r@ == self@.server,
    {
        self.server_pubkey.as_str()
    }

    /// Where the server's relays may come from.
    pub fn relay_sources(&self) -> (r: &RelayResolutionConfig)
        ensures
            r@ == self@.relays,
    {
        &self.relays
    }

    /// The tags by which the client says what it supports.
    pub fn get_client_capability_tags(&self) -> (r: Vec<Tag>)
        ensures
            tag_views(r@) == self@.capability_tags(),
    {
        let mut tags = encryption_tag_list(
            self.config.encryption_mode,
            self.config.gift_wrap_mode,
        );
        let ghost before = tag_views(tags@);
        if self.config.oversized_transfer.enabled {
            push_tag(&mut tags, Tag::flag(SUPPORT_OVERSIZED_TRANSFER));
        }
        assert(tag_views(tags@) =~= self@.capability_tags());
        tags
    }

    /// The discovery tags that are still to be sent.
    pub fn get_pending_client_discovery_tags(&self) -> (r: Vec<Tag>)
        ensures
            tag_views(r@) == self@.pending_tags(),
    {
        if self.has_sent_discovery_tags {
            let none: Vec<Tag> = Vec::new();
            assert(tag_views(none@) =~= Seq::<Seq<Seq<char>>>::empty());
            none
        } else {
            self.get_client_capability_tags()
        }
    }

    /// The kind of gift wrap for messages to the server.
    pub fn choose_outbound_gift_wrap_kind(&self) -> (r: u16)
        ensures
            r == self@.wrap_kind(),
    {
        match self.config.gift_wrap_mode {
            GiftWrapMode::Persistent => GIFT_WRAP_KIND,
            GiftWrapMode::Ephemeral => EPHEMERAL_GIFT_WRAP_KIND,
            GiftWrapMode::Optional => if self.server_supports_ephemeral {
                EPHEMERAL_GIFT_WRAP_KIND
            } else {
                GIFT_WRAP_KIND
            },
        }
    }

    /// The event that is kept as the server's introduction.
    pub fn get_server_initialize_event(&self) -> (r: Option<&SourceEvent>)
        ensures
            match r {
                Some(e) => self@.baseline == Some(e@),
                None => self@.baseline is None,
            },
    {
        self.server_initialize_event.as_ref()
    }

    /// What the server is known to support.
    pub fn discovered_server_capabilities(&self) -> (r: PeerCapabilities)
        ensures
            r == self@.capabilities,
    {
        self.discovered_server_capabilities
    }

    /// Whether the server is known to understand ephemeral gift wraps.
    pub fn server_supports_ephemeral_encryption(&self) -> (r: bool)
        ensures
            r == self@.supports_ephemeral,
    {
        self.server_supports_ephemeral
    }

    /// What is to be done with a message that the consumer sends.
    pub fn send(&mut self, message: &JsonRpcMessage, protocol_version: &str) -> (r: SendPlan)
        requires
            old(self).wf(),
        ensures
            final(self).wf(),
            (final(self)@, r@) == old(self)@.send_plan(message@, protocol_version@),
    {
        if self.config.is_stateless {
            match message {
                JsonRpcMessage::Request(req) => {
                    if same_text(req.method.as_str(), INITIALIZE_METHOD) {
                        return SendPlan::Answer(
                            emulate_initialize_response(&req.id, protocol_version),
                        );
                    }
                },
                JsonRpcMessage::Notification(n) => {
                    if same_text(n.method.as_str(), NOTIFICATIONS_INITIALIZED_METHOD) {
                        return SendPlan::Skip;
                    }
                },
                _ => {},
            }
        }
        let base_tags = create_recipient_tags(self.server_pubkey.as_str());
        let discovery_tags = if message.is_request() {
            self.get_pending_client_discovery_tags()
        } else {
            let none: Vec<Tag> = Vec::new();
            assert(tag_views(none@) =~= Seq::<Seq<Seq<char>>>::empty());
            none
        };
        let tags = compose_outbound_tags(&base_tags, &discovery_tags);
        let gift_wrap_kind: u16 = self.choose_outbound_gift_wrap_kind();
        let discovery_sent = discovery_tags.len() > 0;
        let mut oversized_token: Option<String> = None;
        if self.config.oversized_transfer.enabled {
            if let JsonRpcMessage::Request(req) = message {
                let original = get_opt(get_opt(req.params.as_ref(), "_meta"), "progressToken");
                if let Some(value) = original {
                    if let Some(token) = progress_token_string(value) {
                        self.record_original_progress_token(token.as_str(), value);
                        oversized_token = Some(token);
                    }
                }
            }
        }
        SendPlan::Send(
            Outbound { base_tags, tags, gift_wrap_kind, discovery_sent, oversized_token },
        )
    }

    /// Registers a request that is about to be published as the event `event_id`, or has been
    /// published up to its last frame; other messages are not registered.
    pub fn register_request(&mut self, message: &JsonRpcMessage, event_id: String, now: u64)
        requires
            old(self).wf(),
        ensures
            final(self).wf(),
            final(self)@ == old(self)@.registered(message@, event_id@, now),
    {
        if let JsonRpcMessage::Request(req) = message {
            let is_initialize = same_text(req.method.as_str(), INITIALIZE_METHOD);
            self.pending_requests.register(event_id, req.id.duplicate(), is_initialize, now);
        }
    }

    /// Forgets a request whose event could not be published.
    pub fn publish_failed(&mut self, event_id: &str)
        requires
            old(self).wf(),
        ensures
            final(self).wf(),
            final(self)@ == old(self)@.unpublished(event_id@),
    {
        let _ = self.pending_requests.remove(event_id);
    }

    /// Notes that a message has been published, with or without the discovery tags.
    pub fn publish_succeeded(&mut self, discovery_sent: bool)
        requires
            old(self).wf(),
        ensures
            final(self).wf(),
            final(self)@ == old(self)@.published(discovery_sent),
    {
        if discovery_sent {
            self.has_sent_discovery_tags = true;
        }
    }

    /// Begins to send a request in chunks of `chunk_size` bytes. As long as the server is not
    /// known to support that, its `accept` has to be waited for, and the token is noted as one
    /// that somebody waits for.
    pub fn begin_oversized_request(&mut self, content: &str, token: &str, chunk_size: usize) -> (r:
        Result<OversizedSender, OversizedTransferError>)
        requires
            old(self).wf(),
        ensures
            final(self).wf(),
            ({
                let needs_accept = !old(self)@.capabilities.supports_oversized_transfer;
                match build_refusal(content@, chunk_size as int, needs_accept) {
                    Some(refusal) => {
                        &&& final(self)@ == old(self)@
                        &&& r matches Err(e)
                        &&& e@ == refusal
                    },
                    None => {
                        &&& final(self)@ == old(self)@.upload_begun(token@)
                        &&& r matches Ok(sender)
                        &&& sender@ == old(self)@.upload(content@, token@, chunk_size as int)
                    },
                }
            }),
    {
        let needs_accept = !self.discovered_server_capabilities.supports_oversized_transfer;
        let options = OversizedSenderOptions::new(token).with_chunk_size(
            chunk_size,
        ).with_accept_handshake(needs_accept);
        match build_oversized_frames(content, &options) {
            Ok(frames) => {
                if needs_accept {
                    self.accept_waiters.insert(token.to_owned());
                }
                proof {
                    notification_round_trip(
                        start_frame(content@, chunk_texts(content@, chunk_size as int).len()),
                        token@,
                        START_PROGRESS,
                        None,
                    );
                }
                Ok(OversizedSender::new(frames, needs_accept, needs_accept))
            },
            Err(e) => Err(e),
        }
    }

    /// Nobody waits for the `accept` of a transfer any more.
    pub fn end_accept_wait(&mut self, token: &str)
        requires
            old(self).wf(),
        ensures
            final(self).wf(),
            final(self)@ == old(self)@.unawaited(token@),
    {
        self.accept_waiters.remove(token);
    }

    /// What is to be done with an event of `kind` that a relay delivered. A gift wrap that has
    /// been opened before is dropped.
    pub fn screen_event(&self, kind: u16, event_id: &str) -> (r: Screening)
        requires
            self.wf(),
        ensures
            r == self@.screening(kind, event_id@),
    {
        if violates_encryption_policy(kind, self.config.encryption_mode) {
            return Screening::Drop;
        }
        if !is_gift_wrap_kind(kind) {
            return Screening::Plain;
        }
        if !self.config.gift_wrap_mode.allows_kind(kind) || self.seen_gift_wrap_ids.contains(
            event_id,
        ) {
            return Screening::Drop;
        }
        Screening::Unwrap
    }

    /// Takes what came out of the gift wrap `wrap_id` of kind `wrap_kind`: an event that parses and
    /// verifies is taken, and its gift wrap is not opened again.
    pub fn open_gift_wrap(&mut self, wrap_kind: u16, wrap_id: String, decrypted: &str) -> (r: Option<
        InboundEvent,
    >)
        requires
            old(self).wf(),
        ensures
            final(self).wf(),
            (final(self)@, opt_inbound(r)) == old(self)@.unwrapped(
                wrap_kind,
                wrap_id@,
                event_of(decrypted@),
                event_verifies(decrypted@),
            ),
    {
        let inner = parse_event(decrypted);
        let verified = verify_event(decrypted);
        self.take_inner_event(wrap_kind, wrap_id, inner, verified)
    }

    /// Takes the event that came out of a gift wrap, given whether it verifies.
    pub fn take_inner_event(
        &mut self,
        wrap_kind: u16,
        wrap_id: String,
        inner: Option<EventParts>,
        verified: bool,
    ) -> (r: Option<InboundEvent>)
        requires
            old(self).wf(),
        ensures
            final(self).wf(),
            (final(self)@, opt_inbound(r)) == old(self)@.unwrapped(
                wrap_kind,
                wrap_id@,
                opt_parts(inner),
                verified,
            ),
    {
        match inner {
            Some(e) => {
                if !verified {
                    return None;
                }
                self.mark_unwrapped(wrap_id);
                Some(
                    InboundEvent {
                        event_id: e.event_id,
                        content: e.content,
                        pubkey: e.pubkey,
                        tags: e.tags,
                        wrap_kind: Some(wrap_kind),
                    },
                )
            },
            None => None,
        }
    }

    /// Notes that a gift wrap has been opened and its content verified.
    pub fn mark_unwrapped(&mut self, event_id: String)
        requires
            old(self).wf(),
        ensures
            final(self).wf(),
            final(self)@ == (ClientStateV { seen: noted(old(self)@.seen, event_id@), ..old(self)@ }),
    {
        self.seen_gift_wrap_ids.insert(event_id);
    }

    /// Learns from an event of the server.
    pub fn learn_server_discovery(&mut self, event: &InboundEvent)
        requires
            old(self).wf(),
        ensures
            final(self).wf(),
            final(self)@ == old(self)@.learned(event@),
    {
        let discovered = parse_discovered_peer_capabilities(&event.tags);
        if discovered.discovery_tags.len() > 0 {
            let found = discovered.capabilities;
            let known = self.discovered_server_capabilities;
            self.discovered_server_capabilities =
            PeerCapabilities {
                supports_encryption: known.supports_encryption || found.supports_encryption,
                supports_ephemeral_encryption: known.supports_ephemeral_encryption
                    || found.supports_ephemeral_encryption,
                supports_oversized_transfer: known.supports_oversized_transfer
                    || found.supports_oversized_transfer,
                supports_open_stream: known.supports_open_stream,
            };
            let replace = match &self.server_initialize_event {
                None => true,
                Some(kept) => !event_has_initialize_result(kept.content.as_str())
                    && event_has_initialize_result(event.content.as_str()),
            };
            if replace {
                self.server_initialize_event =
                Some(
                    SourceEvent {
                        event_id: event.event_id.clone(),
                        content: event.content.clone(),
                        tags: clone_tags(&event.tags),
                    },
                );
            }
        }
        if should_learn_ephemeral_support(
            event.pubkey.as_str(),
            self.server_pubkey.as_str(),
            event.wrap_kind,
            &event.tags,
        ) {
            self.server_supports_ephemeral = true;
        }
    }

    /// The progress for the consumer that a frame stands for.
    fn forward_stripped_progress(&mut self, notification: &JsonRpcNotification, token: &str) -> (r:
        Option<JsonRpcMessage>)
        requires
            old(self).wf(),
        ensures
            final(self).wf(),
            (final(self)@, opt_message(r)) == old(self)@.forwarded(notification@, token@),
    {
        let params = match &notification.params {
            Some(params) => params,
            None => {
                return None;
            },
        };
        let original = match self.original_progress_tokens.lookup(token) {
            Some(original) => original,
            None => match params.get("progressToken") {
                Some(wire) => wire.duplicate(),
                None => {
                    return None;
                },
            },
        };
        stripped_progress_notification(params, &original)
    }

    /// Remembers a progress token as the consumer wrote it, under its text.
    pub fn record_original_progress_token(&mut self, token: &str, original: &Json)
        requires
            old(self).wf(),
        ensures
            final(self).wf(),
            final(self)@ == (ClientStateV {
                originals: recorded(old(self)@.originals, token@, original@),
                ..old(self)@
            }),
    {
        self.original_progress_tokens.record(token.to_owned(), original.duplicate());
    }

    /// Forgets the token of a transfer that is over, and returns it as the consumer wrote it.
    pub fn remove_original_progress_token(&mut self, token: Option<&str>) -> (r: Option<Json>)
        requires
            old(self).wf(),
        ensures
            final(self).wf(),
            final(self)@ == old(self)@.token_dropped(opt_str(token)),
            opt_json(r) == (match token {
                Some(t) => value_of(old(self)@.originals, t@),
                None => None,
            }),
    {
        match token {
            Some(t) => self.original_progress_tokens.remove(t),
            None => None,
        }
    }

    fn drop_token(&mut self, token: &Option<String>)
        requires
            old(self).wf(),
        ensures
            final(self).wf(),
            final(self)@ == old(self)@.token_dropped(opt_text(*token)),
    {
        if let Some(t) = token {
            let _ = self.remove_original_progress_token(Some(t.as_str()));
        }
    }

    fn take_accept(&mut self, notification: &JsonRpcNotification, token: Option<String>) -> (r:
        Received)
        requires
            old(self).wf(),
        ensures
            final(self).wf(),
            (final(self)@, r@) == old(self)@.accept_taken(notification@, opt_text(token)),
    {
        if let Some(t) = token {
            if self.accept_waiters.contains(t.as_str()) {
                self.accept_waiters.remove(t.as_str());
                let progress = self.forward_stripped_progress(notification, t.as_str());
                return Received::Accepted { waiter: t, progress };
            }
        }
        Received::Nothing
    }

    fn take_frame(
        &mut self,
        notification: &JsonRpcNotification,
        token: Option<String>,
        e_tag: Option<String>,
        outcome: Result<Option<String>, OversizedTransferError>,
    ) -> (r: Received)
        requires
            old(self).wf(),
        ensures
            final(self).wf(),
            (final(self)@, r@) == old(self)@.frame_taken(
                notification@,
                opt_text(token),
                opt_text(e_tag),
                outcome_of(outcome),
            ),
    {
        match outcome {
            Ok(None) => {
                if let Some(t) = token {
                    if self.oversized_receiver.is_tracking(t.as_str()) {
                        return match self.forward_stripped_progress(notification, t.as_str()) {
                            Some(m) => Received::Deliver(m),
                            None => Received::Nothing,
                        };
                    }
                }
                Received::Nothing
            },
            Ok(Some(payload)) => Received::Reassembled { payload, token, correlated: e_tag },
            Err(_) => {
                self.drop_token(&token);
                Received::Nothing
            },
        }
    }

    fn intercept(&mut self, now: u64, notification: &JsonRpcNotification, e_tag: Option<String>) -> (r:
        Received)
        requires
            old(self).wf(),
        ensures
            final(self).wf(),
            (final(self)@, r@) == old(self)@.intercepted(now, notification@, opt_text(e_tag)),
    {
        let token = token_of_notification(notification);
        let is_accept = match frame_of_notification(notification) {
            Some(OversizedFrame::Accept) => true,
            _ => false,
        };
        if is_accept {
            return self.take_accept(notification, token);
        }
        if let Some(id) = &e_tag {
            let _ = self.pending_requests.touch(id.as_str(), now);
        }
        let outcome = self.oversized_receiver.process_frame(now, notification);
        self.take_frame(notification, token, e_tag, outcome)
    }

    /// What a message from a peer calls for. `notification` and `message` are what its content
    /// parses to, as a notification and as a valid message.
    pub fn receive(
        &mut self,
        now: u64,
        event: &InboundEvent,
        notification: Option<JsonRpcNotification>,
        message: Option<JsonRpcMessage>,
    ) -> (r: Received)
        requires
            old(self).wf(),
        ensures
            final(self).wf(),
            (final(self)@, r@) == old(self)@.received(
                now,
                event@,
                match notification {
                    Some(n) => Some(n@),
                    None => None,
                },
                opt_message(message),
            ),
    {
        if !same_text(event.pubkey.as_str(), self.server_pubkey.as_str()) {
            return Received::Nothing;
        }
        self.learn_server_discovery(event);
        let e_tag = get_tag_value(&event.tags, "e");
        if let Some(n) = notification {
            if same_text(n.method.as_str(), NOTIFICATIONS_PROGRESS_METHOD)
                && OversizedTransferReceiver::is_oversized_frame(&n) {
                return self.intercept(now, &n, e_tag);
            }
        }
        if let Some(id) = &e_tag {
            if !self.pending_requests.contains(id.as_str()) {
                return Received::Nothing;
            }
        }
        match message {
            None => Received::Nothing,
            Some(m) => {
                if m.is_request() || (m.is_response() && e_tag.is_none()) {
                    return Received::Nothing;
                }
                if let Some(id) = &e_tag {
                    let _ = self.pending_requests.remove(id.as_str());
                }
                Received::Deliver(m)
            },
        }
    }

    /// What becomes of a complete transfer, given what its payload parses to: the message for the
    /// consumer, or the failure.
    pub fn reassembled(
        &mut self,
        token: &Option<String>,
        correlated: &Option<String>,
        parsed: Option<JsonRpcMessage>,
    ) -> (r: Result<JsonRpcMessage, OversizedTransferError>)
        requires
            old(self).wf(),
        ensures
            final(self).wf(),
            final(self)@ == old(self)@.completed(
                opt_text(*token),
                opt_text(*correlated),
                opt_message(parsed),
            ).0,
            match r {
                Ok(m) => parsed == Some(m),
                Err(e) => parsed is None && e@ == TransferErrorV::Reassembly(
                    about(
                        "Reassembled payload is not a valid JSON-RPC message"@,
                        match opt_text(*token) {
                            Some(t) => t,
                            None => ""@,
                        },
                    ),
                ),
            },
    {
        self.drop_token(token);
        let name = match token {
            Some(t) => t.clone(),
            None => "".to_owned(),
        };
        match surface_message(name.as_str(), parsed) {
            Ok(m) => {
                if let Some(id) = correlated {
                    let _ = self.pending_requests.remove(id.as_str());
                }
                Ok(m)
            },
            Err(e) => Err(e),
        }
    }

    /// Forgets the requests and drops the transfers that are overdue at `now`; returns how many
    /// requests and which transfers.
    pub fn sweep(&mut self, now: u64) -> (r: (usize, Vec<String>))
        requires
            old(self).wf(),
        ensures
            final(self).wf(),
            final(self)@.pending == retain(
                old(self)@.pending,
                still_pending(now, old(self)@.timeout_ms),
            ),
            r.0 == old(self)@.pending.len() - final(self)@.pending.len(),
            ({
                let reaped = crate::text::texts(r.1@);
                let before = old(self)@.receiver;
                &&& final(self)@ == (ClientStateV {
                    pending: final(self)@.pending,
                    receiver: ReceiverV {
                        transfers: before.transfers.remove_keys(reaped.to_set()),
                        ..before
                    },
                    ..old(self)@
                })
                &&& forall|k: Seq<char>| #[trigger]
                    reaped.contains(k) <==> old(self)@.oversized.enabled
                        && before.transfers.contains_key(k) && is_expired(
                        before.policy,
                        before.transfers[k].admitted_at,
                        now,
                    )
            }),
            forall|id: Seq<char>| #[trigger]
                value_of(final(self)@.pending, id) == (match value_of(old(self)@.pending, id) {
                    Some(p) => if now >= p.registered_at + old(self)@.timeout_ms || old(
                        self,
                    )@.timeout_ms == 0 {
                        None
                    } else {
                        Some(p)
                    },
                    None => None,
                }),
    {
        proof {
            self.wf_facts();
            let keep = still_pending(now, self@.timeout_ms);
            assert forall|id: Seq<char>| #[trigger]
                value_of(retain(self@.pending, keep), id) == (match value_of(self@.pending, id) {
                    Some(p) => if keep((id, p)) {
                        Some(p)
                    } else {
                        None
                    },
                    None => None,
                }) by {
                retain_lookup(self@.pending, keep, id);
            }
        }
        let swept: usize = self.pending_requests.sweep_expired(now, self.config.timeout_ms);
        if self.config.oversized_transfer.enabled {
            let reaped = self.oversized_receiver.remove_expired(now);
            (swept, reaped)
        } else {
            let none: Vec<String> = Vec::new();
            proof {
                assert(crate::text::texts(none@).to_set() =~= Set::<Seq<char>>::empty());
                let t = self@.receiver.transfers;
                assert(t.remove_keys(Set::<Seq<char>>::empty()) =~= t);
            }
            (swept, none)
        }
    }

    /// Drops what is in progress: transfers, waits for an `accept`, recorded tokens.
    pub fn close(&mut self)
        requires
            old(self).wf(),
        ensures
            final(self).wf(),
            final(self)@ == old(self)@.closed(),
    {
        self.oversized_receiver.clear();
        self.accept_waiters = TextSet::new();
        self.original_progress_tokens.clear();
    }
}

/// What is known of the server only grows: no event takes back a capability, and the event that
/// is kept as its introduction stays once it holds the result of `initialize`.
pub proof fn learning_never_downgrades(s: ClientStateV, event: InboundV)
    ensures
        ({
            let t = s.learned(event);
            &&& s.capabilities.supports_encryption ==> t.capabilities.supports_encryption
            &&& s.capabilities.supports_ephemeral_encryption
                ==> t.capabilities.supports_ephemeral_encryption
            &&& s.capabilities.supports_oversized_transfer
                ==> t.capabilities.supports_oversized_transfer
            &&& s.supports_ephemeral ==> t.supports_ephemeral
            &&& s.baseline is Some ==> t.baseline is Some
            &&& s.baseline matches Some(kept) ==> (holds_initialize_result(kept.content)
                ==> t.baseline == s.baseline)
        }),
{
}

/// The discovery tags go out once: after they have been sent no request carries them.
pub proof fn discovery_tags_are_sent_once(s: ClientStateV, m: MessageV, version: Seq<char>)
    requires
        s.has_sent_discovery_tags,
    ensures
        s.send_plan(m, version).1 matches PlanV::Send(o) ==> o.tags == recipient_tags(s.server)
            && !o.discovery_sent,
{
    assert(recipient_tags(s.server) + Seq::<Seq<Seq<char>>>::empty() =~= recipient_tags(s.server));
}

/// Nothing from anybody but the server has any effect.
pub proof fn strangers_are_ignored(
    s: ClientStateV,
    now: u64,
    event: InboundV,
    notification: Option<NotificationV>,
    message: Option<MessageV>,
)
    requires
        event.pubkey != s.server,
    ensures
        s.received(now, event, notification, message) == (s, ReceivedV::Nothing),
{
}

/// The consumer never gets a request of the server, nor a response that does not answer one of
/// its pending requests; and the request that is answered is then no longer pending.
pub proof fn only_answers_are_delivered(
    s: ClientStateV,
    now: u64,
    event: InboundV,
    message: Option<MessageV>,
)
    requires
        keys_distinct(s.pending),
    ensures
        ({
            let (after, r) = s.received(now, event, None, message);
            r matches ReceivedV::Deliver(m) ==> {
                &&& !(m is Request)
                &&& first_value(event.tags, "e"@) matches Some(id) ==> has_key(s.pending, id)
                    && !has_key(after.pending, id)
                &&& m.is_response() ==> first_value(event.tags, "e"@) is Some
            }
        }),
{
    if let Some(id) = first_value(event.tags, "e"@) {
        crate::recency_map::without_facts(s.pending, id);
    }
}

/// A gift wrap that has been opened is not opened again as long as it is remembered.
pub proof fn opened_once(ids: Seq<(Seq<char>, ())>, id: Seq<char>)
    requires
        keys_distinct(ids),
        ids.len() <= DEFAULT_LRU_SIZE,
    ensures
        has_key(noted(ids, id), id),
{
    crate::seen_ids::noted_is_seen(ids, id);
}

/// A late frame of a transfer that is not tracked gives the consumer nothing, so that it does not
/// keep a request alive whose answer can no longer come.
pub proof fn late_frames_give_no_progress(
    s: ClientStateV,
    now: u64,
    event: InboundV,
    n: NotificationV,
    message: Option<MessageV>,
)
    requires
        is_progress_frame(n),
        notification_token(n) matches Some(token) && token.len() > 0
            && !s.receiver.transfers.contains_key(token),
        progress_of(param(n, "progress"@)) is Some,
        frame_of(n) matches Some(f) && (f is Chunk || f is End),
    ensures
        s.received(now, event, Some(n), message).1 == ReceivedV::Nothing,
        s.received(now, event, Some(n), message).0.receiver == s.receiver,
{
    orphan_frames_are_ignored(s.receiver.transfers, s.receiver.policy, now, n);
}

} // verus!
