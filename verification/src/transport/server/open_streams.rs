//! The open streams of a server.
//!
//! A request with a progress token gets a writer, through which its handler may stream to the
//! client before it responds. The final response of a request that streams is held back until
//! the stream has ended. Streams that clients open towards the server go to a reader for each
//! client.

use vstd::prelude::*;

use super::reply::{opt_reply, Reply, ReplyV};
use crate::json::{Json, JsonV};
use crate::keys::{event_id_error, event_id_from_hex, is_hex_key, lower_hex, public_key_from_hex};
use crate::lru_cache::{has_key, pushed, value_of, without};
use crate::message::{opt_message, JsonRpcMessage, JsonRpcNotification, MessageV, NotificationV};
use crate::recency_map::{
    entry_found, keys_distinct, mapped, mapped_facts, retain, retain_agrees, without_facts,
    RecencyMap,
};
use crate::tag::{push_tag, tag_views, Tag};
use crate::text::{join2, opt_str, opt_text, texts};
use crate::text_map::TextMap;
use crate::transport::open_stream::errors::{OpenStreamError, StreamErrorV};
use crate::transport::open_stream::frame::{
    open_stream_frame_from_notification, stream_frame_of, OpenStreamFrame, StreamFrameV,
};
use crate::transport::open_stream::receiver::OpenStreamReceiver;
use crate::transport::open_stream::registry::{
    actions_view, opt_end, opt_ended, route, swept, EndV, EndedStream, OpenStreamRegistryPolicy,
    RegistryV, RoutedV, StreamEnd,
};
use crate::transport::open_stream::session::{FrameOutcome, KeepaliveAction, KeepaliveV, OutcomeV};
use crate::transport::open_stream::writer::{
    succ, OpV, OpenStreamWriter, OpenStreamWriterOptions, WriterOp, WriterStep, WriterV,
};
use crate::transport::open_stream::OpenStreamConfig;
use crate::transport::oversized_transfer::frame::{
    notification_token, progress_notification, token_of_notification,
};
use crate::transport::routing::{
    create_recipient_tags, create_response_tags, recipient_tags, response_tags, response_wrap,
    select_outbound_gift_wrap_kind,
};
use crate::types::GiftWrapMode;

verus! {

/// Where the response to a streaming request goes, noted when the request arrives.
#[derive(Debug, PartialEq, Eq)]
pub struct RouteSnapshot {
    /// The client's public key.
    pub client_pubkey: String,
    /// The id that the client sent the request under.
    pub original_request_id: Json,
    /// Whether the request was encrypted.
    pub is_encrypted: bool,
    /// Kind of the gift wrap that carried the request.
    pub mirrored_wrap_kind: Option<u16>,
}

/// Model of [`RouteSnapshot`].
pub struct RouteSnapshotV {
    pub client_pubkey: Seq<char>,
    pub original_request_id: JsonV,
    pub is_encrypted: bool,
    pub mirrored_wrap_kind: Option<u16>,
}

impl View for RouteSnapshot {
    type V = RouteSnapshotV;

    open spec fn view(&self) -> RouteSnapshotV {
        RouteSnapshotV {
            client_pubkey: self.client_pubkey@,
            original_request_id: self.original_request_id@,
            is_encrypted: self.is_encrypted,
            mirrored_wrap_kind: self.mirrored_wrap_kind,
        }
    }
}

/// The writer of a request, and its response as long as it is held back.
pub struct OpenStreamSlot {
    writer: OpenStreamWriter,
    snapshot: RouteSnapshot,
    pending_response: Option<JsonRpcMessage>,
    terminated: bool,
}

/// Model of [`OpenStreamSlot`].
pub struct SlotV {
    /// The writer.
    pub writer: WriterV,
    /// Where the response goes.
    pub snapshot: RouteSnapshotV,
    /// The response that is held back.
    pub pending: Option<MessageV>,
    /// Whether the stream has ended.
    pub terminated: bool,
}

impl View for OpenStreamSlot {
    type V = SlotV;

    closed spec fn view(&self) -> SlotV {
        SlotV {
            writer: self.writer@,
            snapshot: self.snapshot@,
            pending: opt_message(self.pending_response),
            terminated: self.terminated,
        }
    }
}

/// What becomes of the response to a request that may have streamed.
#[derive(Debug, PartialEq, Eq)]
pub enum OpenStreamDeferral {
    /// It is held back until the stream has ended.
    Deferred,
    /// It goes out now, to where the snapshot says.
    SendNow { snapshot: RouteSnapshot, response: JsonRpcMessage },
    /// It goes out like any other.
    Passthrough(JsonRpcMessage),
}

/// Model of [`OpenStreamDeferral`].
pub enum DeferralV {
    Deferred,
    SendNow { snapshot: RouteSnapshotV, response: MessageV },
    Passthrough(MessageV),
}

impl View for OpenStreamDeferral {
    type V = DeferralV;

    open spec fn view(&self) -> DeferralV {
        match self {
            OpenStreamDeferral::Deferred => DeferralV::Deferred,
            OpenStreamDeferral::SendNow { snapshot, response } => DeferralV::SendNow {
                snapshot: snapshot@,
                response: response@,
            },
            OpenStreamDeferral::Passthrough(m) => DeferralV::Passthrough(m@),
        }
    }
}

/// Where a frame from a client goes.
#[derive(Debug, PartialEq, Eq)]
pub enum StreamRouting {
    /// To the writer of this event, as this operation.
    Writer { event_id: String, op: WriterOp },
    /// To the client's reader.
    Reader,
    /// To the client's reader, after which the stream `token` is to be accepted.
    ReaderThenAccept { token: String },
}

/// Model of [`StreamRouting`].
pub enum RoutingV {
    Writer { event_id: Seq<char>, op: OpV },
    Reader,
    ReaderThenAccept { token: Seq<char> },
}

impl View for StreamRouting {
    type V = RoutingV;

    open spec fn view(&self) -> RoutingV {
        match self {
            StreamRouting::Writer { event_id, op } => RoutingV::Writer {
                event_id: event_id@,
                op: op@,
            },
            StreamRouting::Reader => RoutingV::Reader,
            StreamRouting::ReaderThenAccept { token } => RoutingV::ReaderThenAccept {
                token: token@,
            },
        }
    }
}

/// Model of [`ServerOpenStreamState`].
pub struct StreamsV {
    /// Whether open streams are on.
    pub enabled: bool,
    /// The limits of each reader.
    pub policy: OpenStreamRegistryPolicy,
    /// The readers by client, the most recently used first.
    pub readers: Seq<(Seq<char>, RegistryV)>,
    /// The most readers that are kept.
    pub capacity: nat,
    /// The writers by event id.
    pub slots: Map<Seq<char>, SlotV>,
    /// The event id for each progress token.
    pub tokens: Map<Seq<char>, Seq<char>>,
    /// Progress of the last control frame.
    pub control_progress: u64,
}

impl StreamsV {
    /// Whether there are at most as many readers as there may be.
    pub open spec fn bounded(self) -> bool {
        &&& keys_distinct(self.readers)
        &&& self.readers.len() <= self.capacity
        &&& 1 <= self.capacity
    }

    /// The state without a writer.
    pub open spec fn freed(self, event_id: Seq<char>) -> StreamsV {
        StreamsV {
            slots: self.slots.remove(event_id),
            tokens: self.tokens.remove(self.slots[event_id].writer.token),
            ..self
        }
    }

    /// What becomes of the response to `event_id`: without a writer, or with one that was never
    /// used, it goes out like any other; while the stream is open it is held back; and once the
    /// stream has ended it goes out.
    pub open spec fn deferral(self, event_id: Seq<char>, response: MessageV) -> (
        StreamsV,
        DeferralV,
    ) {
        if !self.slots.contains_key(event_id) {
            (self, DeferralV::Passthrough(response))
        } else if !self.slots[event_id].writer.started {
            (self.freed(event_id), DeferralV::Passthrough(response))
        } else if self.slots[event_id].terminated {
            (
                self.freed(event_id),
                DeferralV::SendNow { snapshot: self.slots[event_id].snapshot, response },
            )
        } else {
            (
                StreamsV {
                    slots: self.slots.insert(
                        event_id,
                        SlotV { pending: Some(response), ..self.slots[event_id] },
                    ),
                    ..self
                },
                DeferralV::Deferred,
            )
        }
    }

    /// What the end of a stream makes of a response that is held back: it goes out, and the
    /// writer is dropped. Without one the stream is just noted to have ended.
    pub open spec fn ended(self, event_id: Seq<char>) -> (
        StreamsV,
        Option<(RouteSnapshotV, MessageV)>,
    ) {
        if !self.slots.contains_key(event_id) {
            (self, None)
        } else {
            let slot = self.slots[event_id];
            match slot.pending {
                Some(response) => (self.freed(event_id), Some((slot.snapshot, response))),
                None => (
                    StreamsV {
                        slots: self.slots.insert(event_id, SlotV { terminated: true, ..slot }),
                        ..self
                    },
                    None,
                ),
            }
        }
    }

    /// What publishing the frame of an operation of the writer of an event, or failing to, makes
    /// of the state, and the end of the stream, if the operation ends it.
    pub open spec fn completed(self, event_id: Seq<char>, op: OpV, published: bool) -> (
        StreamsV,
        Option<EndV>,
    ) {
        if !self.slots.contains_key(event_id) {
            (self, None)
        } else {
            let slot = self.slots[event_id];
            let (writer, end) = slot.writer.completed(op, published);
            (
                StreamsV {
                    slots: self.slots.insert(event_id, SlotV { writer, ..slot }),
                    ..self
                },
                end,
            )
        }
    }

    /// The state with a new writer. The client's key and the event id have to be valid.
    pub open spec fn with_writer(
        self,
        event_id: Seq<char>,
        client: Seq<char>,
        token: Seq<char>,
        request_id: JsonV,
        is_encrypted: bool,
        wrap_kind: Option<u16>,
    ) -> StreamsV {
        if !is_hex_key(client) || !is_hex_key(event_id) {
            self
        } else {
            StreamsV {
                slots: self.slots.insert(
                    event_id,
                    SlotV {
                        writer: WriterV::fresh(token, None),
                        snapshot: RouteSnapshotV {
                            client_pubkey: lower_hex(client),
                            original_request_id: request_id,
                            is_encrypted,
                            mirrored_wrap_kind: wrap_kind,
                        },
                        pending: None,
                        terminated: false,
                    },
                ),
                tokens: self.tokens.insert(token, event_id),
                ..self
            }
        }
    }

    /// A frame of the writer of an event, as it goes out.
    pub open spec fn writer_reply(self, mode: GiftWrapMode, event_id: Seq<char>, frame: NotificationV) -> Option<
        ReplyV,
    > {
        if !self.slots.contains_key(event_id) || !is_hex_key(event_id) {
            None
        } else {
            let snapshot = self.slots[event_id].snapshot;
            Some(
                ReplyV {
                    message: MessageV::Notification(frame),
                    recipient: snapshot.client_pubkey,
                    tags: response_tags(snapshot.client_pubkey, lower_hex(event_id)),
                    is_encrypted: snapshot.is_encrypted,
                    gift_wrap_kind: response_wrap(
                        mode,
                        snapshot.is_encrypted,
                        snapshot.mirrored_wrap_kind,
                    ),
                },
            )
        }
    }

    /// The event of the writer that owns a token, if there is one.
    pub open spec fn writer_event(self, token: Option<Seq<char>>) -> Option<Seq<char>> {
        match token {
            Some(t) => if self.tokens.contains_key(t) && self.slots.contains_key(self.tokens[t]) {
                Some(self.tokens[t])
            } else {
                None
            },
            None => None,
        }
    }

    /// Where a frame from a client goes: a probe and an abort to the writer that owns the token,
    /// everything else to the client's reader; a `start` of a client that supports open streams
    /// is accepted afterwards.
    pub open spec fn routing(self, n: NotificationV, client_supports: bool) -> RoutingV {
        let token = notification_token(n);
        let writer = self.writer_event(token);
        match stream_frame_of(n) {
            Some(StreamFrameV::Ping { nonce }) => match writer {
                Some(event_id) => RoutingV::Writer { event_id, op: OpV::Pong(nonce) },
                None => RoutingV::Reader,
            },
            Some(StreamFrameV::Abort { reason }) => match writer {
                Some(event_id) => RoutingV::Writer { event_id, op: OpV::Abort(reason) },
                None => RoutingV::Reader,
            },
            Some(StreamFrameV::Start { .. }) => match token {
                Some(t) => if client_supports {
                    RoutingV::ReaderThenAccept { token: t }
                } else {
                    RoutingV::Reader
                },
                None => RoutingV::Reader,
            },
            _ => RoutingV::Reader,
        }
    }

    /// A client's reader; a new one where there is none.
    pub open spec fn reader(self, client: Seq<char>) -> RegistryV {
        match value_of(self.readers, client) {
            Some(r) => r,
            None => RegistryV { policy: self.policy, sessions: Map::empty() },
        }
    }

    /// The state with a client's reader replaced; the reader moves to the front, and the least
    /// recently used one makes room for a new one.
    pub open spec fn with_reader(self, client: Seq<char>, r: RegistryV) -> StreamsV {
        StreamsV { readers: pushed(self.readers, self.capacity, client, r), ..self }
    }

    /// What a frame does to the client's reader.
    pub open spec fn fed(self, now: u64, client: Seq<char>, n: NotificationV) -> (
        StreamsV,
        RoutedV,
    ) {
        let (after, routed) = route(self.reader(client), now, n);
        (self.with_reader(client, after), routed)
    }

    /// A control frame to a client: its progress counts up, and where it answers an event it
    /// says so. Nothing is sent to a client whose key is invalid.
    pub open spec fn control_frame(
        self,
        mode: GiftWrapMode,
        frame: StreamFrameV,
        token: Seq<char>,
        recipient: Seq<char>,
        correlated: Option<Seq<char>>,
        is_encrypted: bool,
        wrap_kind: Option<u16>,
    ) -> (StreamsV, Option<ReplyV>) {
        if !is_hex_key(recipient) {
            (self, None)
        } else {
            let progress = succ(self.control_progress);
            (
                StreamsV { control_progress: progress, ..self },
                Some(
                    ReplyV {
                        message: MessageV::Notification(
                            progress_notification(token, progress, None, frame.cvm()),
                        ),
                        recipient: lower_hex(recipient),
                        tags: match correlated {
                            Some(id) => if is_hex_key(id) {
                                response_tags(lower_hex(recipient), lower_hex(id))
                            } else {
                                recipient_tags(lower_hex(recipient))
                            },
                            None => recipient_tags(lower_hex(recipient)),
                        },
                        is_encrypted,
                        gift_wrap_kind: response_wrap(mode, is_encrypted, wrap_kind),
                    },
                ),
            )
        }
    }
}

/// The response to a request that has streamed, as it goes out.
pub open spec fn deferred_reply(
    mode: GiftWrapMode,
    event_id: Seq<char>,
    snapshot: RouteSnapshotV,
    response: MessageV,
) -> Result<ReplyV, Seq<char>> {
    if !is_hex_key(event_id) {
        Err("Invalid event id for deferred response: "@ + event_id_error(event_id))
    } else {
        Ok(
            ReplyV {
                message: response.answered_as(snapshot.original_request_id),
                recipient: snapshot.client_pubkey,
                tags: response_tags(snapshot.client_pubkey, lower_hex(event_id)),
                is_encrypted: snapshot.is_encrypted,
                gift_wrap_kind: response_wrap(
                    mode,
                    snapshot.is_encrypted,
                    snapshot.mirrored_wrap_kind,
                ),
            },
        )
    }
}

/// The response to a request that has streamed, as it goes out.
pub fn prepare_deferred_response(
    gift_wrap_mode: GiftWrapMode,
    event_id: &str,
    snapshot: &RouteSnapshot,
    response: JsonRpcMessage,
) -> (r: Result<Reply, String>)
    ensures
        match r {
            Ok(reply) => deferred_reply(gift_wrap_mode, event_id@, snapshot@, response@) == Ok::<
                ReplyV,
                Seq<char>,
            >(reply@),
            Err(e) => deferred_reply(gift_wrap_mode, event_id@, snapshot@, response@) == Err::<
                ReplyV,
                Seq<char>,
            >(e@),
        },
{
    let message = response.answered_as(&snapshot.original_request_id);
    match event_id_from_hex(event_id) {
        Ok(id) => Ok(
            Reply {
                message,
                recipient: snapshot.client_pubkey.clone(),
                tags: create_response_tags(snapshot.client_pubkey.as_str(), id.as_str()),
                is_encrypted: snapshot.is_encrypted,
                gift_wrap_kind: select_outbound_gift_wrap_kind(
                    gift_wrap_mode,
                    snapshot.is_encrypted,
                    snapshot.mirrored_wrap_kind,
                ),
            },
        ),
        Err(error) => Err(join2("Invalid event id for deferred response: ", error.as_str())),
    }
}

/// The open streams of a server.
pub struct ServerOpenStreamState {
    enabled: bool,
    policy: OpenStreamRegistryPolicy,
    receiver: RecencyMap<OpenStreamReceiver>,
    slots: TextMap<OpenStreamSlot>,
    token_to_event: TextMap<String>,
    control_progress: u64,
}

/// The model of a reader.
pub open spec fn reader_view() -> spec_fn(OpenStreamReceiver) -> RegistryV {
    |r: OpenStreamReceiver| r@
}

/// The models of the writers.
pub open spec fn slots_view(m: Map<Seq<char>, OpenStreamSlot>) -> Map<Seq<char>, SlotV> {
    Map::new(|k: Seq<char>| m.contains_key(k), |k: Seq<char>| m[k]@)
}

/// The event ids by token.
pub open spec fn events_view(m: Map<Seq<char>, String>) -> Map<Seq<char>, Seq<char>> {
    Map::new(|k: Seq<char>| m.contains_key(k), |k: Seq<char>| m[k]@)
}

impl View for ServerOpenStreamState {
    type V = StreamsV;

    closed spec fn view(&self) -> StreamsV {
        StreamsV {
            enabled: self.enabled,
            policy: self.policy,
            readers: mapped(self.receiver@, reader_view()),
            capacity: self.receiver.capacity(),
            slots: slots_view(self.slots@),
            tokens: events_view(self.token_to_event@),
            control_progress: self.control_progress,
        }
    }
}

/// What came of a frame that went to a reader.
pub struct FedReader {
    /// The nonce of the `pong` that is to be sent.
    pub pong: Option<String>,
    /// Why the frame was refused.
    pub refused: Option<OpenStreamError>,
    /// The stream that ended.
    pub ended: Option<EndedStream>,
}

/// A keepalive action, with the client and the stream that it is about.
#[derive(Debug, PartialEq, Eq)]
pub struct PeerAction {
    pub peer: String,
    pub token: String,
    pub action: KeepaliveAction,
}

/// Model of [`PeerAction`].
pub struct PeerActionV {
    pub peer: Seq<char>,
    pub token: Seq<char>,
    pub action: KeepaliveV,
}

impl View for PeerAction {
    type V = PeerActionV;

    open spec fn view(&self) -> PeerActionV {
        PeerActionV { peer: self.peer@, token: self.token@, action: self.action@ }
    }
}

/// The models of some actions.
pub open spec fn peer_actions(actions: Seq<PeerAction>) -> Seq<PeerActionV> {
    Seq::new(actions.len(), |i: int| actions[i]@)
}

impl ServerOpenStreamState {
    /// Whether the state is well formed.
    pub closed spec fn wf(&self) -> bool {
        self.receiver.wf()
    }

    /// What well-formedness means for the readers.
    pub proof fn wf_facts(&self)
        requires
            self.wf(),
        ensures
            self@.bounded(),
    {
        self.receiver.wf_facts();
        assert forall|i: int, j: int|
            0 <= i < self@.readers.len() && 0 <= j < self@.readers.len() && i != j implies (
        #[trigger] self@.readers[i]).0 != (#[trigger] self@.readers[j]).0 by {
            assert(self.receiver@[i].0 != self.receiver@[j].0);
        }
    }

    /// No stream, with readers for up to `max_sessions` clients.
    pub fn new(config: &OpenStreamConfig, max_sessions: usize) -> (r: Self)
        requires
            max_sessions <= usize::MAX / 128,
        ensures
            r.wf(),
            r@ == (StreamsV {
                enabled: config.enabled,
                policy: vstd::std_specs::convert::FromSpec::from_spec(config),
                readers: Seq::empty(),
                capacity: if max_sessions >= 1 {
                    max_sessions as nat
                } else {
                    1
                },
                slots: Map::empty(),
                tokens: Map::empty(),
                control_progress: 0,
            }),
    {
        let r = ServerOpenStreamState {
            enabled: config.enabled,
            policy: OpenStreamRegistryPolicy::from(config),
            receiver: RecencyMap::with_capacity(max_sessions),
            slots: TextMap::new(),
            token_to_event: TextMap::new(),
            control_progress: 0,
        };
        assert(r@.readers =~= Seq::<(Seq<char>, RegistryV)>::empty());
        assert(r@.slots =~= Map::<Seq<char>, SlotV>::empty());
        assert(r@.tokens =~= Map::<Seq<char>, Seq<char>>::empty());
        r
    }

    /// Whether open streams are on.
    pub fn is_enabled(&self) -> (r: bool)
        ensures
            r == self@.enabled,
    {
        self.enabled
    }

    /// The idle timeout of streams that clients open.
    pub fn idle_timeout_ms(&self) -> (r: u64)
        ensures
            r == self@.policy.idle_timeout_ms,
    {
        self.policy.idle_timeout_ms
    }

    /// The progress of the next control frame.
    pub fn next_control_progress(&mut self) -> (r: u64)
        ensures
            final(self)@ == (StreamsV {
                control_progress: succ(old(self)@.control_progress),
                ..old(self)@
            }),
            r == succ(old(self)@.control_progress),
            final(self).wf() == old(self).wf(),
    {
        self.control_progress = self.control_progress.wrapping_add(1);
        self.control_progress
    }

    /// The writer of an event, for the request's handler; none where open streams are off.
    pub fn get_open_stream_writer(&self, event_id: &str) -> (r: Option<&OpenStreamWriter>)
        ensures
            match r {
                Some(w) => self@.enabled && self@.slots.contains_key(event_id@) && w@
                    == self@.slots[event_id@].writer,
                None => !self@.enabled || !self@.slots.contains_key(event_id@),
            },
    {
        if !self.enabled {
            return None;
        }
        match self.slots.get(event_id) {
            Some(slot) => Some(&slot.writer),
            None => None,
        }
    }

    /// The event id for a progress token.
    pub fn event_id_for_token(&self, token: &str) -> (r: Option<String>)
        ensures
            match r {
                Some(id) => self@.tokens.contains_key(token@) && id@ == self@.tokens[token@],
                None => !self@.tokens.contains_key(token@),
            },
    {
        match self.token_to_event.get(token) {
            Some(id) => Some(id.clone()),
            None => None,
        }
    }

    /// Makes a writer for a request.
    pub fn create_open_stream_writer(
        &mut self,
        event_id: &str,
        client_pubkey: &str,
        progress_token: &str,
        original_request_id: Json,
        is_encrypted: bool,
        mirrored_wrap_kind: Option<u16>,
    )
        requires
            old(self).wf(),
        ensures
            final(self).wf(),
            final(self)@ == old(self)@.with_writer(
                event_id@,
                client_pubkey@,
                progress_token@,
                original_request_id@,
                is_encrypted,
                mirrored_wrap_kind,
            ),
    {
        let ghost before = self@;
        let client = match public_key_from_hex(client_pubkey) {
            Ok(key) => key,
            Err(_) => {
                return;
            },
        };
        if event_id_from_hex(event_id).is_err() {
            return;
        }
        let slot = OpenStreamSlot {
            writer: OpenStreamWriter::new(
                OpenStreamWriterOptions {
                    progress_token: progress_token.to_owned(),
                    content_type: None,
                },
            ),
            snapshot: RouteSnapshot {
                client_pubkey: client,
                original_request_id,
                is_encrypted,
                mirrored_wrap_kind,
            },
            pending_response: None,
            terminated: false,
        };
        let _ = self.slots.insert(event_id.to_owned(), slot);
        let _ = self.token_to_event.insert(progress_token.to_owned(), event_id.to_owned());
        assert(self@.slots =~= before.slots.insert(event_id@, slot@));
        assert(self@.tokens =~= before.tokens.insert(progress_token@, event_id@));
    }

    /// What becomes of the response to a request.
    pub fn try_defer_open_stream_response(&mut self, event_id: &str, response: JsonRpcMessage) -> (r:
        OpenStreamDeferral)
        requires
            old(self).wf(),
        ensures
            final(self).wf(),
            (final(self)@, r@) == old(self)@.deferral(event_id@, response@),
    {
        let ghost before = self@;
        match self.slots.remove(event_id) {
            None => {
                assert(self@.slots =~= before.slots);
                OpenStreamDeferral::Passthrough(response)
            },
            Some(s) => {
                assert(s@ == before.slots[event_id@]);
                assert(self@.slots =~= before.slots.remove(event_id@));
                if !s.writer.has_started() {
                    let _ = self.token_to_event.remove(s.writer.progress_token());
                    assert(self@.tokens =~= before.tokens.remove(s@.writer.token));
                    return OpenStreamDeferral::Passthrough(response);
                }
                if s.terminated {
                    let _ = self.token_to_event.remove(s.writer.progress_token());
                    assert(self@.tokens =~= before.tokens.remove(s@.writer.token));
                    return OpenStreamDeferral::SendNow { snapshot: s.snapshot, response };
                }
                let mut slot = s;
                slot.pending_response = Some(response);
                let _ = self.slots.insert(event_id.to_owned(), slot);
                assert(self@.slots =~= before.slots.insert(event_id@, slot@));
                OpenStreamDeferral::Deferred
            },
        }
    }

    /// Notes that a stream has ended. Returned is the response that was held back, if any.
    pub fn flush_open_stream_response(&mut self, event_id: &str) -> (r: Option<
        (RouteSnapshot, JsonRpcMessage),
    >)
        requires
            old(self).wf(),
        ensures
            final(self).wf(),
            final(self)@ == old(self)@.ended(event_id@).0,
            match r {
                Some((snapshot, response)) => old(self)@.ended(event_id@).1 == Some(
                    (snapshot@, response@),
                ),
                None => old(self)@.ended(event_id@).1 is None,
            },
    {
        let ghost before = self@;
        match self.slots.remove(event_id) {
            None => {
                assert(self@.slots =~= before.slots);
                None
            },
            Some(s) => {
                assert(s@ == before.slots[event_id@]);
                assert(self@.slots =~= before.slots.remove(event_id@));
                let OpenStreamSlot { writer, snapshot, pending_response, terminated: _ } = s;
                match pending_response {
                    Some(response) => {
                        let _ = self.token_to_event.remove(writer.progress_token());
                        assert(self@.tokens =~= before.tokens.remove(writer@.token));
                        Some((snapshot, response))
                    },
                    None => {
                        let slot = OpenStreamSlot {
                            writer,
                            snapshot,
                            pending_response: None,
                            terminated: true,
                        };
                        let _ = self.slots.insert(event_id.to_owned(), slot);
                        assert(self@.slots =~= before.slots.insert(event_id@, slot@));
                        None
                    },
                }
            },
        }
    }

    /// What comes next in an operation of the writer of an event.
    pub fn writer_step(&mut self, event_id: &str, op: &WriterOp) -> (r: Option<WriterStep>)
        requires
            old(self).wf(),
        ensures
            final(self).wf(),
            match r {
                Some(step) => old(self)@.slots.contains_key(event_id@) && {
                    let slot = old(self)@.slots[event_id@];
                    &&& step@ == slot.writer.step(op@).1
                    &&& final(self)@ == (StreamsV {
                        slots: old(self)@.slots.insert(
                            event_id@,
                            SlotV { writer: slot.writer.step(op@).0, ..slot },
                        ),
                        ..old(self)@
                    })
                },
                None => !old(self)@.slots.contains_key(event_id@) && final(self)@ == old(self)@,
            },
    {
        let ghost before = self@;
        match self.slots.remove(event_id) {
            None => {
                assert(self@.slots =~= before.slots);
                None
            },
            Some(s) => {
                let mut slot = s;
                let step = slot.writer.next_step(op);
                let _ = self.slots.insert(event_id.to_owned(), slot);
                assert(self@.slots =~= before.slots.insert(event_id@, slot@));
                Some(step)
            },
        }
    }

    /// A frame of the writer of an event, as it goes out: it answers that event.
    pub fn writer_frame(
        &self,
        gift_wrap_mode: GiftWrapMode,
        event_id: &str,
        frame: JsonRpcNotification,
    ) -> (r: Option<Reply>)
        ensures
            opt_reply(r) == self@.writer_reply(gift_wrap_mode, event_id@, frame@),
    {
        match (self.slots.get(event_id), event_id_from_hex(event_id)) {
            (Some(slot), Ok(id)) => Some(
                Reply {
                    message: JsonRpcMessage::Notification(frame),
                    recipient: slot.snapshot.client_pubkey.clone(),
                    tags: create_response_tags(slot.snapshot.client_pubkey.as_str(), id.as_str()),
                    is_encrypted: slot.snapshot.is_encrypted,
                    gift_wrap_kind: select_outbound_gift_wrap_kind(
                        gift_wrap_mode,
                        slot.snapshot.is_encrypted,
                        slot.snapshot.mirrored_wrap_kind,
                    ),
                },
            ),
            _ => None,
        }
    }

    /// Reports that the `start` frame of a writer has been published.
    pub fn start_published(&mut self, event_id: &str)
        requires
            old(self).wf(),
        ensures
            final(self).wf(),
            final(self)@ == (if old(self)@.slots.contains_key(event_id@) {
                let slot = old(self)@.slots[event_id@];
                StreamsV {
                    slots: old(self)@.slots.insert(
                        event_id@,
                        SlotV { writer: WriterV { started: true, ..slot.writer }, ..slot },
                    ),
                    ..old(self)@
                }
            } else {
                old(self)@
            }),
    {
        let ghost before = self@;
        match self.slots.remove(event_id) {
            None => {
                assert(self@.slots =~= before.slots);
            },
            Some(s) => {
                let mut slot = s;
                slot.writer.start_published();
                let _ = self.slots.insert(event_id.to_owned(), slot);
                assert(self@.slots =~= before.slots.insert(event_id@, slot@));
            },
        }
    }

    /// Reports that the frame of an operation of a writer has been published, or could not be.
    /// Returned is the end of the stream, if the operation ends it.
    pub fn writer_completed(&mut self, event_id: &str, op: &WriterOp, published: bool) -> (r:
        Option<StreamEnd>)
        requires
            old(self).wf(),
        ensures
            final(self).wf(),
            (final(self)@, opt_end(r)) == old(self)@.completed(event_id@, op@, published),
    {
        let ghost before = self@;
        match self.slots.remove(event_id) {
            None => {
                assert(self@.slots =~= before.slots);
                None
            },
            Some(s) => {
                let mut slot = s;
                let end = slot.writer.completed(op, published);
                let _ = self.slots.insert(event_id.to_owned(), slot);
                assert(self@.slots =~= before.slots.insert(event_id@, slot@));
                end
            },
        }
    }

    pub(crate) fn writer_event_of(&self, token: &Option<String>) -> (r: Option<String>)
        ensures
            opt_text(r) == self@.writer_event(opt_text(*token)),
    {
        match token {
            Some(t) => match self.token_to_event.get(t.as_str()) {
                Some(id) => if self.slots.contains_key(id.as_str()) {
                    Some(id.clone())
                } else {
                    None
                },
                None => None,
            },
            None => None,
        }
    }

    /// Where a frame from a client goes.
    pub fn handle_open_stream_frame(
        &self,
        notification: &JsonRpcNotification,
        client_supports_open_stream: bool,
    ) -> (r: StreamRouting)
        ensures
            r@ == self@.routing(notification@, client_supports_open_stream),
    {
        let token = token_of_notification(notification);
        let writer = self.writer_event_of(&token);
        match open_stream_frame_from_notification(notification) {
            Some(OpenStreamFrame::Ping { nonce }) => match writer {
                Some(event_id) => StreamRouting::Writer { event_id, op: WriterOp::Pong(nonce) },
                None => StreamRouting::Reader,
            },
            Some(OpenStreamFrame::Abort { reason }) => match writer {
                Some(event_id) => StreamRouting::Writer { event_id, op: WriterOp::Abort(reason) },
                None => StreamRouting::Reader,
            },
            Some(OpenStreamFrame::Start { content_type: _ }) => match token {
                Some(t) => if client_supports_open_stream {
                    StreamRouting::ReaderThenAccept { token: t }
                } else {
                    StreamRouting::Reader
                },
                None => StreamRouting::Reader,
            },
            _ => StreamRouting::Reader,
        }
    }

    /// Takes out a client's reader, or makes a new one.
    fn take_reader(&mut self, client: &str) -> (r: OpenStreamReceiver)
        requires
            old(self).wf(),
        ensures
            final(self).wf(),
            r@ == old(self)@.reader(client@),
            final(self)@ == (StreamsV {
                readers: without(old(self)@.readers, client@),
                ..old(self)@
            }),
    {
        proof {
            self.receiver.wf_facts();
            if has_key(self.receiver@, client@) {
                mapped_facts(
                    self.receiver@,
                    reader_view(),
                    self.receiver.capacity(),
                    client@,
                    value_of(self.receiver@, client@).unwrap(),
                );
            } else if has_key(self@.readers, client@) {
                let i = crate::lru_cache::index_of_key(self@.readers, client@);
                assert(self.receiver@[i].0 == client@);
            }
        }
        match self.receiver.pop(client) {
            Some(r) => r,
            None => OpenStreamReceiver::with_policy(self.policy),
        }
    }

    /// Puts a client's reader in front.
    fn put_reader(&mut self, client: &str, reader: OpenStreamReceiver)
        requires
            old(self).wf(),
        ensures
            final(self).wf(),
            final(self)@ == old(self)@.with_reader(client@, reader@),
    {
        proof {
            self.receiver.wf_facts();
            mapped_facts(
                self.receiver@,
                reader_view(),
                self.receiver.capacity(),
                client@,
                reader,
            );
        }
        let _ = self.receiver.push(client.to_owned(), reader);
    }

    /// Hands a frame to the client's reader.
    pub fn feed_open_stream_reader(
        &mut self,
        now: u64,
        sender_pubkey: &str,
        notification: &JsonRpcNotification,
    ) -> (r: FedReader)
        requires
            old(self).wf(),
        ensures
            final(self).wf(),
            ({
                let (after, routed) = old(self)@.fed(now, sender_pubkey@, notification@);
                &&& final(self)@ == after
                &&& opt_ended(r.ended) == routed.ended
                &&& opt_text(r.pong) == (match routed.result {
                    Ok(OutcomeV::SendPong(nonce)) => Some(nonce),
                    _ => None,
                })
                &&& match r.refused {
                    Some(e) => routed.result == Err::<OutcomeV, StreamErrorV>(e@),
                    None => routed.result is Ok,
                }
            }),
    {
        let ghost before = self@;
        proof {
            self.wf_facts();
            without_facts(before.readers, sender_pubkey@);
        }
        let mut reader = self.take_reader(sender_pubkey);
        let routed = reader.process_frame(now, notification);
        self.put_reader(sender_pubkey, reader);
        proof {
            assert(self@.readers =~= pushed(
                before.readers,
                before.capacity,
                sender_pubkey@,
                reader@,
            )) by {
                evict_after_take(before, sender_pubkey@, reader@);
            }
        }
        match routed.result {
            Ok(FrameOutcome::SendPong(nonce)) => FedReader {
                pong: Some(nonce),
                refused: None,
                ended: routed.ended,
            },
            Ok(_) => FedReader { pong: None, refused: None, ended: routed.ended },
            Err(e) => FedReader { pong: None, refused: Some(e), ended: routed.ended },
        }
    }

    /// A control frame to a client.
    pub fn open_stream_control_frame(
        &mut self,
        gift_wrap_mode: GiftWrapMode,
        frame: &OpenStreamFrame,
        token: &str,
        recipient_pubkey: &str,
        correlated_event_id: Option<&str>,
        is_encrypted: bool,
        wrap_kind: Option<u16>,
    ) -> (r: Option<Reply>)
        requires
            old(self).wf(),
        ensures
            final(self).wf(),
            (final(self)@, opt_reply(r)) == old(self)@.control_frame(
                gift_wrap_mode,
                frame@,
                token@,
                recipient_pubkey@,
                opt_str(correlated_event_id),
                is_encrypted,
                wrap_kind,
            ),
    {
        let recipient = match public_key_from_hex(recipient_pubkey) {
            Ok(key) => key,
            Err(_) => {
                return None;
            },
        };
        let progress: u64 = self.next_control_progress();
        let notification = frame.into_progress_notification(token, progress, None);
        let mut tags = create_recipient_tags(recipient.as_str());
        if let Some(id) = correlated_event_id {
            if let Ok(event_id) = event_id_from_hex(id) {
                push_tag(&mut tags, Tag::with_value("e", event_id.as_str()));
                assert(tag_views(tags@) =~= response_tags(recipient@, event_id@));
            }
        }
        Some(
            Reply {
                message: JsonRpcMessage::Notification(notification),
                recipient,
                tags,
                is_encrypted,
                gift_wrap_kind: select_outbound_gift_wrap_kind(
                    gift_wrap_mode,
                    is_encrypted,
                    wrap_kind,
                ),
            },
        )
    }

    /// Runs the keepalive check of every reader at `now`, and drops the readers that are left
    /// without a stream. Returned is what is to be done.
    pub fn sweep_open_stream_sessions(&mut self, now: u64) -> (r: Vec<PeerAction>)
        requires
            old(self).wf(),
        ensures
            final(self).wf(),
            final(self)@ == (StreamsV {
                readers: swept_readers(old(self)@.readers, now),
                ..old(self)@
            }),
            lists_due(peer_actions(r@), old(self)@.readers, now),
    {
        let ghost start = self@;
        proof {
            self.wf_facts();
        }
        let keys = self.receiver.keys();
        let mut actions: Vec<PeerAction> = Vec::new();
        let mut empty: Vec<String> = Vec::new();
        let mut i: usize = 0;
        assert(self@.readers =~= partly_swept(start.readers, now, 0));
        while i < keys.len()
            invariant
                i <= keys@.len(),
                keys@.len() == start.readers.len(),
                keys_distinct(start.readers),
                self.wf(),
                forall|j: int| 0 <= j < keys@.len() ==> (#[trigger] keys@[j])@ == start.readers[j].0,
                self@ == (StreamsV {
                    readers: partly_swept(start.readers, now, i as int),
                    ..start
                }),
                forall|j: int|
                    0 <= j < i ==> (texts(empty@).contains((#[trigger] start.readers[j]).0)
                        <==> swept(start.readers[j].1.sessions, now).len() == 0),
                forall|k: Seq<char>| #[trigger]
                    texts(empty@).contains(k) ==> exists|j: int|
                        0 <= j < i && (#[trigger] start.readers[j]).0 == k,
                forall|a: PeerActionV| #[trigger]
                    peer_actions(actions@).contains(a) <==> is_due(
                        start.readers.take(i as int),
                        now,
                        a,
                    ),
            decreases keys@.len() - i,
        {
            let ghost name = start.readers[i as int].0;
            let ghost at = self@;
            let ghost listed = texts(empty@);
            let ghost acted = peer_actions(actions@);
            proof {
                assert(keys@[i as int]@ == name);
                self.wf_facts();
                assert(at.readers[i as int] == start.readers[i as int]);
                entry_found(at.readers, i as int);
                self.reader_facts(name);
                if listed.contains(name) {
                    let j = choose|j: int| 0 <= j < i && (#[trigger] start.readers[j]).0 == name;
                    assert(start.readers[j].0 != start.readers[i as int].0);
                }
            }
            let spare = OpenStreamReceiver::with_policy(self.policy);
            let ghost raw = self.receiver@;
            match self.receiver.replace(keys[i].as_str(), spare) {
                Some(r) => {
                    let mut reader = r;
                    assert(reader@ == start.readers[i as int].1);
                    let sweep = reader.registry_mut().tick_all(now);
                    let ghost due = actions_view(sweep.actions@);
                    let is_empty = reader.active_stream_count() == 0;
                    let ghost swept_reader = reader@;
                    proof {
                        self.receiver.wf_facts();
                        let mid = self.receiver@;
                        assert(raw[i as int].0 == name);
                        entry_found(raw, i as int);
                        assert(mid == raw.update(i as int, (name, spare)));
                        assert(mid[i as int].0 == name);
                        entry_found(mid, i as int);
                    }
                    let _ = self.receiver.replace(keys[i].as_str(), reader);
                    let mut todo = sweep.actions;
                    let ghost done: int = 0;
                    let ghost total = due.len() as int;
                    assert(peer_actions(actions@) =~= acted + tagged(name, due, 0));
                    while todo.len() > 0
                        invariant
                            0 <= done <= total,
                            total == due.len(),
                            todo@.len() == total - done,
                            keys@[i as int]@ == name,
                            i < keys@.len(),
                            actions_view(todo@) == due.take(total - done),
                            peer_actions(actions@) == acted + tagged(name, due, done),
                        decreases todo@.len(),
                    {
                        let ghost left = todo@;
                        match todo.pop() {
                            Some((token, action)) => {
                                let ghost last = (token@, action@);
                                proof {
                                    assert(actions_view(left)[total - done - 1] == last);
                                    assert(due[total - done - 1] == last);
                                    assert(actions_view(todo@) =~= due.take(total - done - 1));
                                }
                                let ghost had = actions@;
                                actions.push(PeerAction { peer: keys[i].clone(), token, action });
                                proof {
                                    assert(peer_actions(actions@) =~= peer_actions(had).push(
                                        PeerActionV { peer: name, token: last.0, action: last.1 },
                                    ));
                                    assert(peer_actions(actions@) =~= acted + tagged(
                                        name,
                                        due,
                                        done + 1,
                                    ));
                                    done = done + 1;
                                }
                            },
                            None => {},
                        }
                    }
                    if is_empty {
                        empty.push(keys[i].clone());
                    }
                    proof {
                        assert(done == total);
                        let after = partly_swept(start.readers, now, i + 1);
                        assert(swept_reader == swept_registry(start.readers[i as int].1, now));
                        assert(self.receiver@ =~= raw.update(i as int, (name, reader)));
                        assert(at.readers == mapped(raw, reader_view()));
                        assert forall|j: int| 0 <= j < after.len() implies #[trigger] self@.readers[j]
                            == after[j] by {
                            assert(at.readers[j] == partly_swept(start.readers, now, i as int)[j]);
                            assert(at.readers[j] == (raw[j].0, raw[j].1@));
                            if j == i {
                                assert(self.receiver@[j] == (name, reader));
                                assert(self@.readers[j] == (name, reader@));
                                assert(reader@ == swept_reader);
                            } else {
                                assert(self.receiver@[j] == raw[j]);
                            }
                        }
                        assert(self@.readers =~= after);
                        let more = texts(empty@);
                        if is_empty {
                            assert(more =~= listed.push(name));
                            assert(more[listed.len() as int] == name);
                        }
                        assert forall|k: Seq<char>| #[trigger] more.contains(k) == (
                        listed.contains(k) || (is_empty && k == name)) by {
                            if listed.contains(k) {
                                let x = listed.index_of(k);
                                assert(more[x] == k);
                            }
                        }
                        assert forall|j: int| 0 <= j < i + 1 implies (more.contains(
                            (#[trigger] start.readers[j]).0,
                        ) <==> swept(start.readers[j].1.sessions, now).len() == 0) by {
                            if j < i {
                                assert(start.readers[j].0 != start.readers[i as int].0);
                            }
                        }
                        due_grows(
                            start.readers,
                            now,
                            i as int,
                            acted,
                            due,
                            peer_actions(actions@),
                        );
                    }
                },
                None => {
                    assert(false);
                },
            }
            i = i + 1;
        }
        let ghost settled = self.receiver@;
        self.receiver.pop_all(&empty);
        proof {
            let all = partly_swept(start.readers, now, i as int);
            assert(start.readers.take(i as int) =~= start.readers);
            assert(all =~= mapped(start.readers, |r: RegistryV| swept_registry(r, now)));
            let keep = |e: (Seq<char>, OpenStreamReceiver)| !texts(empty@).contains(e.0);
            let keep_seen = |e: (Seq<char>, RegistryV)| !texts(empty@).contains(e.0);
            crate::recency_map::mapped_retain(settled, reader_view(), keep, keep_seen);
            assert(mapped(settled, reader_view()) == all);
            retain_agrees(all, keep_seen, |e: (Seq<char>, RegistryV)| e.1.sessions.len() > 0);
        }
        actions
    }

    proof fn reader_facts(&self, key: Seq<char>)
        requires
            self.wf(),
        ensures
            has_key(self@.readers, key) == has_key(self.receiver@, key),
            value_of(self@.readers, key) == (match value_of(self.receiver@, key) {
                Some(r) => Some(r@),
                None => None,
            }),
            keys_distinct(self.receiver@),
    {
        self.receiver.wf_facts();
        if has_key(self.receiver@, key) {
            mapped_facts(
                self.receiver@,
                reader_view(),
                self.receiver.capacity(),
                key,
                value_of(self.receiver@, key).unwrap(),
            );
        } else if has_key(self@.readers, key) {
            let i = crate::lru_cache::index_of_key(self@.readers, key);
            assert(self.receiver@[i].0 == key);
        }
    }

    /// Drops every stream. The streams that clients had opened are ended.
    pub fn clear(&mut self)
        requires
            old(self).wf(),
        ensures
            final(self).wf(),
            final(self)@ == (StreamsV {
                readers: Seq::empty(),
                slots: Map::empty(),
                tokens: Map::empty(),
                ..old(self)@
            }),
    {
        self.receiver.clear();
        self.slots.clear();
        self.token_to_event.clear();
        assert(self@.readers =~= Seq::<(Seq<char>, RegistryV)>::empty());
        assert(self@.slots =~= Map::<Seq<char>, SlotV>::empty());
        assert(self@.tokens =~= Map::<Seq<char>, Seq<char>>::empty());
    }
}

/// A reader after its keepalive check.
pub open spec fn swept_registry(r: RegistryV, now: u64) -> RegistryV {
    RegistryV { sessions: swept(r.sessions, now), ..r }
}

/// The readers after their keepalive check: those without a stream are gone.
pub open spec fn swept_readers(readers: Seq<(Seq<char>, RegistryV)>, now: u64) -> Seq<
    (Seq<char>, RegistryV),
> {
    retain(
        mapped(readers, |r: RegistryV| swept_registry(r, now)),
        |e: (Seq<char>, RegistryV)| e.1.sessions.len() > 0,
    )
}

/// Whether the keepalive check of a client's stream calls for an action.
pub open spec fn is_due(readers: Seq<(Seq<char>, RegistryV)>, now: u64, a: PeerActionV) -> bool {
    exists|j: int|
        0 <= j < readers.len() && (#[trigger] readers[j]).0 == a.peer
            && readers[j].1.sessions.contains_key(a.token)
            && readers[j].1.sessions[a.token].ticked(now).1 == a.action && !(a.action is Nothing)
}

/// Whether a list holds exactly the actions that the keepalive check calls for.
pub open spec fn lists_due(due: Seq<PeerActionV>, readers: Seq<(Seq<char>, RegistryV)>, now: u64) -> bool {
    forall|a: PeerActionV| #[trigger] due.contains(a) <==> is_due(readers, now, a)
}

spec fn partly_swept(readers: Seq<(Seq<char>, RegistryV)>, now: u64, n: int) -> Seq<
    (Seq<char>, RegistryV),
> {
    Seq::new(
        readers.len(),
        |j: int|
            if j < n {
                (readers[j].0, swept_registry(readers[j].1, now))
            } else {
                readers[j]
            },
    )
}

/// The last `n` actions, in reverse, with the client that they are about.
spec fn tagged(peer: Seq<char>, due: Seq<(Seq<char>, KeepaliveV)>, n: int) -> Seq<PeerActionV> {
    Seq::new(
        n as nat,
        |x: int|
            PeerActionV {
                peer,
                token: due[due.len() - 1 - x].0,
                action: due[due.len() - 1 - x].1,
            },
    )
}

proof fn due_grows(
    readers: Seq<(Seq<char>, RegistryV)>,
    now: u64,
    i: int,
    before: Seq<PeerActionV>,
    due: Seq<(Seq<char>, KeepaliveV)>,
    after: Seq<PeerActionV>,
)
    requires
        0 <= i < readers.len(),
        after == before + tagged(readers[i].0, due, due.len() as int),
        forall|a: PeerActionV| #[trigger]
            before.contains(a) <==> is_due(readers.take(i), now, a),
        forall|k: Seq<char>, a: KeepaliveV| #[trigger]
            due.contains((k, a)) <==> readers[i].1.sessions.contains_key(k)
                && readers[i].1.sessions[k].ticked(now).1 == a && !(a is Nothing),
    ensures
        forall|a: PeerActionV| #[trigger]
            after.contains(a) <==> is_due(readers.take(i + 1), now, a),
{
    let name = readers[i].0;
    let fresh = tagged(name, due, due.len() as int);
    assert forall|a: PeerActionV| #[trigger] after.contains(a) <==> is_due(
        readers.take(i + 1),
        now,
        a,
    ) by {
        if after.contains(a) {
            let x = after.index_of(a);
            if x < before.len() {
                assert(before[x] == a);
                assert(before.contains(a));
                let j = choose|j: int|
                    0 <= j < readers.take(i).len() && (#[trigger] readers.take(i)[j]).0 == a.peer
                        && readers.take(i)[j].1.sessions.contains_key(a.token)
                        && readers.take(i)[j].1.sessions[a.token].ticked(now).1 == a.action && !(
                    a.action is Nothing);
                assert(readers.take(i + 1)[j] == readers[j]);
            } else {
                let y = x - before.len();
                assert(fresh[y] == a);
                let z = due.len() - 1 - y;
                assert(due[z] == (a.token, a.action));
                assert(due.contains((a.token, a.action)));
                assert(readers.take(i + 1)[i] == readers[i]);
            }
        }
        if is_due(readers.take(i + 1), now, a) {
            let j = choose|j: int|
                0 <= j < readers.take(i + 1).len() && (#[trigger] readers.take(i + 1)[j]).0
                    == a.peer && readers.take(i + 1)[j].1.sessions.contains_key(a.token)
                    && readers.take(i + 1)[j].1.sessions[a.token].ticked(now).1 == a.action && !(
                a.action is Nothing);
            if j < i {
                assert(readers.take(i)[j] == readers[j]);
                assert(before.contains(a));
                let x = before.index_of(a);
                assert(after[x] == a);
            } else {
                assert(due.contains((a.token, a.action)));
                let z = due.index_of((a.token, a.action));
                let y = due.len() - 1 - z;
                assert(fresh[y] == a);
                assert(after[before.len() + y] == a);
            }
        }
    }
}

proof fn evict_after_take(s: StreamsV, client: Seq<char>, r: RegistryV)
    requires
        s.bounded(),
    ensures
        pushed(without(s.readers, client), s.capacity, client, r) == pushed(
            s.readers,
            s.capacity,
            client,
            r,
        ),
{
    without_facts(s.readers, client);
    assert(without(without(s.readers, client), client) == without(s.readers, client));
}

/// The response to a request that streams goes out exactly once, in either order of events: if
/// it comes first it is held back and goes out with the end of the stream; if the stream ends
/// first it goes out at once. Either way nothing of the stream is left behind.
pub proof fn response_goes_out_once(s: StreamsV, event_id: Seq<char>, response: MessageV)
    requires
        s.slots.contains_key(event_id),
        s.slots[event_id].writer.started,
        !s.slots[event_id].terminated,
        s.slots[event_id].pending is None,
    ensures
        ({
            let snapshot = s.slots[event_id].snapshot;
            let (held, d1) = s.deferral(event_id, response);
            let (done1, out1) = held.ended(event_id);
            let (over, out2) = s.ended(event_id);
            let (done2, d2) = over.deferral(event_id, response);
            &&& d1 == DeferralV::Deferred
            &&& out1 == Some((snapshot, response))
            &&& out2 is None
            &&& d2 == (DeferralV::SendNow { snapshot, response })
            &&& done1 == done2
            &&& !done1.slots.contains_key(event_id)
            &&& !done1.tokens.contains_key(s.slots[event_id].writer.token)
            &&& done1.ended(event_id) == (done1, None::<(RouteSnapshotV, MessageV)>)
        }),
{
    let (held, d1) = s.deferral(event_id, response);
    let (over, out2) = s.ended(event_id);
    assert(held.slots.remove(event_id) =~= s.slots.remove(event_id));
    assert(over.slots.remove(event_id) =~= s.slots.remove(event_id));
}

/// A writer that was never used does not hold the response back, and is dropped.
pub proof fn unused_writer_is_dropped(s: StreamsV, event_id: Seq<char>, response: MessageV)
    requires
        s.slots.contains_key(event_id),
        !s.slots[event_id].writer.started,
    ensures
        ({
            let (after, d) = s.deferral(event_id, response);
            &&& d == DeferralV::Passthrough(response)
            &&& !after.slots.contains_key(event_id)
            &&& !after.tokens.contains_key(s.slots[event_id].writer.token)
        }),
{
}

} // verus!
