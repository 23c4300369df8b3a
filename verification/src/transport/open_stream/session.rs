//! The reading end of an open stream.
//!
//! [`OpenStreamSession`] puts the chunks of a stream in order, bounds what it buffers, answers
//! and issues keepalive probes, and hands the chunks out one by one. It performs no I/O and
//! owns no clock: the caller passes the time in milliseconds, publishes what an outcome or a
//! keepalive action asks for, and wakes whoever waits.
//!
//! Deadlines and the index of the next chunk are kept in 128 bits, so that no timeout and no
//! chunk index can make them wrap.

use vstd::prelude::*;
use vstd::string::*;

use super::buffer::{map_bytes, seq_bytes, text_bytes, ChunkBuffer, ChunkCursor, ChunkQueue};
use super::errors::{opt_stream_error, OpenStreamError, StreamErrorV};
use super::frame::{OpenStreamFrame, StreamFrameV};
use crate::message::{JsonRpcNotification, NotificationV};
use crate::text::{clone_opt, decimal, decimal_text, join2, join3, opt_text, same_text};
use crate::transport::oversized_transfer::codec::utf8_byte_len;
use crate::transport::oversized_transfer::frame::progress_notification;
use crate::transport::oversized_transfer::receiver::{
    frontier, frontier_unique, has_chunk, is_frontier, run_of,
};

verus! {

/// What one frame asks of the caller.
#[derive(Debug, PartialEq, Eq)]
pub enum FrameOutcome {
    /// Nothing.
    Nothing,
    /// Publish a `pong` that echoes this nonce.
    SendPong(String),
    /// The stream closed.
    Closed,
    /// The peer aborted the stream, with an advisory reason.
    Aborted(Option<String>),
}

/// Model of [`FrameOutcome`].
pub enum OutcomeV {
    Nothing,
    SendPong(Seq<char>),
    Closed,
    Aborted(Option<Seq<char>>),
}

impl View for FrameOutcome {
    type V = OutcomeV;

    open spec fn view(&self) -> OutcomeV {
        match self {
            FrameOutcome::Nothing => OutcomeV::Nothing,
            FrameOutcome::SendPong(n) => OutcomeV::SendPong(n@),
            FrameOutcome::Closed => OutcomeV::Closed,
            FrameOutcome::Aborted(r) => OutcomeV::Aborted(opt_text(*r)),
        }
    }
}

/// What a keepalive tick asks of the caller.
#[derive(Debug, PartialEq, Eq)]
pub enum KeepaliveAction {
    /// Nothing.
    Nothing,
    /// Publish a `ping` with this nonce.
    SendPing(String),
    /// A deadline has passed, and the stream is aborted for this reason.
    Abort(String),
}

/// Model of [`KeepaliveAction`].
pub enum KeepaliveV {
    Nothing,
    SendPing(Seq<char>),
    Abort(Seq<char>),
}

impl View for KeepaliveAction {
    type V = KeepaliveV;

    open spec fn view(&self) -> KeepaliveV {
        match self {
            KeepaliveAction::Nothing => KeepaliveV::Nothing,
            KeepaliveAction::SendPing(n) => KeepaliveV::SendPing(n@),
            KeepaliveAction::Abort(r) => KeepaliveV::Abort(r@),
        }
    }
}

/// What the consumer of a stream gets.
#[derive(Debug, PartialEq, Eq)]
pub enum StreamItem {
    /// The next chunk.
    Chunk(String),
    /// The stream failed. Reported once.
    Failed(OpenStreamError),
    /// The stream is over.
    Ended,
    /// Nothing yet.
    Pending,
}

/// Model of [`StreamItem`].
pub enum ItemV {
    Chunk(Seq<char>),
    Failed(StreamErrorV),
    Ended,
    Pending,
}

impl View for StreamItem {
    type V = ItemV;

    open spec fn view(&self) -> ItemV {
        match self {
            StreamItem::Chunk(t) => ItemV::Chunk(t@),
            StreamItem::Failed(e) => ItemV::Failed(e@),
            StreamItem::Ended => ItemV::Ended,
            StreamItem::Pending => ItemV::Pending,
        }
    }
}

/// The limits and timeouts of a stream.
#[derive(Clone, Copy, PartialEq, Eq, Structural, Debug)]
pub struct StreamLimits {
    /// Most chunks that may be buffered and queued.
    pub max_buffered_chunks: usize,
    /// Most bytes that may be buffered and queued.
    pub max_buffered_bytes: u64,
    /// Idle time before the peer is probed.
    pub idle_timeout_ms: u64,
    /// Time to wait for the answer to a probe.
    pub probe_timeout_ms: u64,
    /// Time to wait for missing chunks after a close.
    pub close_grace_period_ms: u64,
}

/// How a session is set up.
#[derive(Debug, PartialEq, Eq)]
pub struct OpenStreamSessionOptions {
    /// The stream's progress token.
    pub progress_token: String,
    /// Limits and timeouts.
    pub limits: StreamLimits,
    /// Whether the consumer's abort can be published to the peer.
    pub can_publish: bool,
}

/// Model of [`OpenStreamSession`].
pub struct SessionV {
    /// The stream's progress token.
    pub token: Seq<char>,
    /// Limits and timeouts.
    pub limits: StreamLimits,
    /// Whether the consumer's abort can be published.
    pub can_publish: bool,
    /// Chunks ready for the consumer.
    pub queue: Seq<Seq<char>>,
    /// Chunks that wait for an earlier one, by index.
    pub buffered: Map<u64, Seq<char>>,
    /// Index of the next chunk to be queued.
    pub next: int,
    /// Highest progress accepted so far, or `-1`.
    pub last_progress: i64,
    /// Whether `start` has been seen.
    pub started: bool,
    /// Whether the stream is live.
    pub active: bool,
    /// Whether `close` has been seen.
    pub closed_remotely: bool,
    /// The last index that `close` declared.
    pub expected_last: Option<u64>,
    /// The failure still to be reported.
    pub terminal: Option<StreamErrorV>,
    /// When the last frame was accepted.
    pub last_activity: u64,
    /// Nonce of the probe in flight.
    pub probe_nonce: Option<Seq<char>>,
    /// Number of the last nonce.
    pub nonces: u64,
    /// When the probe in flight is given up.
    pub probe_deadline: Option<int>,
    /// When the wait for missing chunks is given up.
    pub grace_deadline: Option<int>,
    /// Progress of the last frame that this end published.
    pub outbound: u64,
}

/// The chunks outside a range of indices.
pub open spec fn outside(chunks: Map<u64, Seq<char>>, from: int, to: int) -> Map<u64, Seq<char>> {
    Map::new(|p: u64| chunks.contains_key(p) && !(from <= p < to), |p: u64| chunks[p])
}

impl SessionV {
    /// A new stream.
    pub open spec fn fresh(token: Seq<char>, limits: StreamLimits, can_publish: bool, now: u64) -> SessionV {
        SessionV {
            token,
            limits,
            can_publish,
            queue: Seq::empty(),
            buffered: Map::empty(),
            next: 0,
            last_progress: (-1) as i64,
            started: false,
            active: true,
            closed_remotely: false,
            expected_last: None,
            terminal: None,
            last_activity: now,
            probe_nonce: None,
            nonces: 0,
            probe_deadline: None,
            grace_deadline: None,
            outbound: 0,
        }
    }

    /// The stream over, with the failure to be reported, if any. A stream that is over already
    /// stays as it is.
    pub open spec fn finalized(self, error: Option<StreamErrorV>) -> SessionV {
        if self.active {
            SessionV {
                active: false,
                terminal: error,
                probe_nonce: None,
                probe_deadline: None,
                grace_deadline: None,
                ..self
            }
        } else {
            self
        }
    }

    /// The stream with the contiguous run of buffered chunks moved to the queue.
    pub open spec fn flushed(self) -> SessionV {
        let end = frontier(self.buffered, self.next);
        SessionV {
            queue: self.queue + run_of(self.buffered, self.next, (end - self.next) as nat),
            buffered: outside(self.buffered, self.next, end),
            next: end,
            ..self
        }
    }

    /// Tries to end a stream that the peer has closed: the stream and whether it is over, or
    /// that the declared last chunk can no longer come.
    pub open spec fn finished(self) -> (SessionV, Result<bool, StreamErrorV>) {
        if !self.closed_remotely || self.buffered.len() > 0 {
            (self, Ok(false))
        } else if self.expected_last matches Some(last) && self.next != last + 1 {
            (self, Err(StreamErrorV::Sequence(incomplete(self.token, self.expected_last.unwrap()))))
        } else {
            (self.finalized(None), Ok(true))
        }
    }

    /// Why a chunk is refused, if it is.
    pub open spec fn chunk_refusal(self, index: u64, data: Seq<char>) -> Option<StreamErrorV> {
        if index < self.next {
            Some(StreamErrorV::Sequence("Stale chunkIndex "@ + decimal(index as nat) + " for "@ + self.token))
        } else if self.buffered.contains_key(index) {
            Some(
                StreamErrorV::Sequence(
                    "Duplicate chunkIndex "@ + decimal(index as nat) + " for "@ + self.token,
                ),
            )
        } else if self.buffered.len() + self.queue.len() >= self.limits.max_buffered_chunks {
            Some(
                StreamErrorV::Sequence("Buffered chunk limit exceeded for stream "@ + self.token),
            )
        } else if map_bytes(self.buffered) + seq_bytes(self.queue) + text_bytes(data)
            > self.limits.max_buffered_bytes {
            Some(StreamErrorV::Sequence("Buffered byte limit exceeded for stream "@ + self.token))
        } else {
            None
        }
    }

    /// What one frame with valid progress does.
    pub open spec fn frame_step(self, now: u64, frame: StreamFrameV) -> (
        SessionV,
        Result<OutcomeV, StreamErrorV>,
    ) {
        let unstarted = StreamErrorV::Sequence(
            "Received non-start frame before start for "@ + self.token,
        );
        match frame {
            StreamFrameV::Start { .. } => if self.started {
                (
                    self,
                    Err(StreamErrorV::Sequence("Duplicate start frame for stream "@ + self.token)),
                )
            } else {
                (SessionV { started: true, ..self }, Ok(OutcomeV::Nothing))
            },
            StreamFrameV::Accept => (self, Ok(OutcomeV::Nothing)),
            StreamFrameV::Ping { nonce } => if !self.started {
                (self, Err(unstarted))
            } else {
                (self, Ok(OutcomeV::SendPong(nonce)))
            },
            StreamFrameV::Pong { nonce } => if !self.started {
                (self, Err(unstarted))
            } else if self.probe_nonce == Some(nonce) {
                (SessionV { probe_nonce: None, probe_deadline: None, ..self }, Ok(OutcomeV::Nothing))
            } else {
                (self, Ok(OutcomeV::Nothing))
            },
            StreamFrameV::Chunk { chunk_index, data } => if !self.started {
                (self, Err(unstarted))
            } else {
                match self.chunk_refusal(chunk_index, data) {
                    Some(e) => (self, Err(e)),
                    None => {
                        let stored = SessionV {
                            buffered: self.buffered.insert(chunk_index, data),
                            ..self
                        };
                        match stored.flushed().finished() {
                            (s, Ok(true)) => (s, Ok(OutcomeV::Closed)),
                            (s, Ok(false)) => (s, Ok(OutcomeV::Nothing)),
                            (s, Err(e)) => (s, Err(e)),
                        }
                    },
                }
            },
            StreamFrameV::Close { last_chunk_index } => if !self.started {
                (self, Err(unstarted))
            } else {
                let closed = SessionV {
                    closed_remotely: true,
                    expected_last: last_chunk_index,
                    ..self
                };
                match closed.flushed().finished() {
                    (s, Ok(true)) => (s, Ok(OutcomeV::Closed)),
                    (s, Ok(false)) => (
                        SessionV {
                            grace_deadline: Some(now + self.limits.close_grace_period_ms),
                            ..s
                        },
                        Ok(OutcomeV::Nothing),
                    ),
                    (s, Err(e)) => (s, Err(e)),
                }
            },
            StreamFrameV::Abort { reason } => (
                self.finalized(Some(StreamErrorV::Abort { token: self.token, reason })),
                Ok(OutcomeV::Aborted(reason)),
            ),
        }
    }

    /// What one frame does. The stream has to be live, and progress has to increase; a frame
    /// that passes both counts as activity even when it is refused for another reason.
    pub open spec fn step(self, now: u64, progress: i64, frame: StreamFrameV) -> (
        SessionV,
        Result<OutcomeV, StreamErrorV>,
    ) {
        if !self.active {
            (
                self,
                Err(StreamErrorV::Sequence("Received frame for inactive stream "@ + self.token)),
            )
        } else if progress <= self.last_progress {
            (
                self,
                Err(StreamErrorV::Sequence("Non-increasing progress for stream "@ + self.token)),
            )
        } else {
            SessionV { last_progress: progress, last_activity: now, ..self }.frame_step(now, frame)
        }
    }

    /// The number of the next nonce.
    pub open spec fn next_nonce(self) -> u64 {
        if self.nonces == u64::MAX {
            0
        } else {
            (self.nonces + 1) as u64
        }
    }

    /// Time since the last accepted frame.
    pub open spec fn idle_for(self, now: u64) -> int {
        if now > self.last_activity {
            now - self.last_activity
        } else {
            0
        }
    }

    /// What a keepalive tick does.
    pub open spec fn ticked(self, now: u64) -> (SessionV, KeepaliveV) {
        if !self.active {
            (self, KeepaliveV::Nothing)
        } else if self.probe_nonce is Some && (self.probe_deadline matches Some(d) && now >= d) {
            (
                self.finalized(
                    Some(
                        StreamErrorV::Abort { token: self.token, reason: Some("Probe timeout"@) },
                    ),
                ),
                KeepaliveV::Abort("Probe timeout"@),
            )
        } else if self.closed_remotely && self.buffered.len() > 0 && (
        self.grace_deadline matches Some(d) && now >= d) {
            (
                self.finalized(
                    Some(
                        StreamErrorV::Abort {
                            token: self.token,
                            reason: Some("Close grace period expired"@),
                        },
                    ),
                ),
                KeepaliveV::Abort("Close grace period expired"@),
            )
        } else if !self.closed_remotely && self.probe_nonce is None && self.idle_for(now)
            >= self.limits.idle_timeout_ms {
            let nonce = nonce_text(self.token, self.next_nonce());
            (
                SessionV {
                    nonces: self.next_nonce(),
                    probe_nonce: Some(nonce),
                    probe_deadline: Some(now + self.limits.probe_timeout_ms),
                    ..self
                },
                KeepaliveV::SendPing(nonce),
            )
        } else {
            (self, KeepaliveV::Nothing)
        }
    }

    /// What the consumer gets next.
    pub open spec fn polled(self) -> (SessionV, ItemV) {
        if self.queue.len() > 0 {
            (SessionV { queue: self.queue.drop_first(), ..self }, ItemV::Chunk(self.queue[0]))
        } else if self.active {
            (self, ItemV::Pending)
        } else {
            match self.terminal {
                Some(e) => (SessionV { terminal: None, ..self }, ItemV::Failed(e)),
                None => (self, ItemV::Ended),
            }
        }
    }

    /// What the consumer's abort does: the stream, and the frame to be published, if any.
    pub open spec fn aborted(self, reason: Option<Seq<char>>) -> (SessionV, Option<NotificationV>) {
        if !self.active {
            (self, None)
        } else {
            let over = self.finalized(Some(StreamErrorV::Abort { token: self.token, reason }));
            if self.can_publish {
                let progress = if self.outbound == u64::MAX {
                    0u64
                } else {
                    (self.outbound + 1) as u64
                };
                (
                    SessionV { outbound: progress, ..over },
                    Some(
                        progress_notification(
                            self.token,
                            progress,
                            None,
                            (StreamFrameV::Abort { reason }).cvm(),
                        ),
                    ),
                )
            } else {
                (over, None)
            }
        }
    }
}

/// The message about a stream whose last chunks never came.
pub open spec fn incomplete(token: Seq<char>, last: u64) -> Seq<char> {
    "Incomplete stream for "@ + token + ": expected chunks through "@ + decimal(last as nat)
}

/// The nonce with number `n`.
pub open spec fn nonce_text(token: Seq<char>, n: u64) -> Seq<char> {
    token + ":"@ + decimal(n as nat)
}

/// The model of a result of a frame.
pub open spec fn result_of(r: Result<FrameOutcome, OpenStreamError>) -> Result<
    OutcomeV,
    StreamErrorV,
> {
    match r {
        Ok(o) => Ok(o@),
        Err(e) => Err(e@),
    }
}

/// The model of an attempt to finish.
pub open spec fn finish_of(r: Result<bool, OpenStreamError>) -> Result<bool, StreamErrorV> {
    match r {
        Ok(b) => Ok(b),
        Err(e) => Err(e@),
    }
}

/// A deadline as a mathematical integer.
pub open spec fn opt_deadline(d: Option<u128>) -> Option<int> {
    match d {
        Some(x) => Some(x as int),
        None => None,
    }
}

/// The reading end of an open stream.
pub struct OpenStreamSession {
    progress_token: String,
    limits: StreamLimits,
    can_publish: bool,
    queue: ChunkQueue,
    buffered: ChunkBuffer,
    next_expected_chunk: ChunkCursor,
    last_progress: i64,
    started: bool,
    active: bool,
    closed_remotely: bool,
    expected_last_chunk_index: Option<u64>,
    terminal: Option<OpenStreamError>,
    last_activity: u64,
    pending_probe_nonce: Option<String>,
    control_nonce: u64,
    probe_deadline: Option<u128>,
    close_grace_deadline: Option<u128>,
    outbound_progress: u64,
}

impl View for OpenStreamSession {
    type V = SessionV;

    closed spec fn view(&self) -> SessionV {
        SessionV {
            token: self.progress_token@,
            limits: self.limits,
            can_publish: self.can_publish,
            queue: self.queue@,
            buffered: self.buffered@,
            next: self.next_expected_chunk@,
            last_progress: self.last_progress,
            started: self.started,
            active: self.active,
            closed_remotely: self.closed_remotely,
            expected_last: self.expected_last_chunk_index,
            terminal: opt_stream_error(self.terminal),
            last_activity: self.last_activity,
            probe_nonce: opt_text(self.pending_probe_nonce),
            nonces: self.control_nonce,
            probe_deadline: opt_deadline(self.probe_deadline),
            grace_deadline: opt_deadline(self.close_grace_deadline),
            outbound: self.outbound_progress,
        }
    }
}

impl OpenStreamSession {
    /// A stream buffers finitely many chunks.
    pub proof fn buffers_finitely(&self)
        ensures
            self@.buffered.dom().finite(),
    {
        self.buffered.is_finite();
    }

    /// A new stream, first seen at `now`.
    pub fn new(options: OpenStreamSessionOptions, now: u64) -> (r: Self)
        ensures
            r@ == SessionV::fresh(
                options.progress_token@,
                options.limits,
                options.can_publish,
                now,
            ),
    {
        OpenStreamSession {
            progress_token: options.progress_token,
            limits: options.limits,
            can_publish: options.can_publish,
            queue: ChunkQueue::new(),
            buffered: ChunkBuffer::new(),
            next_expected_chunk: ChunkCursor::start(),
            last_progress: -1,
            started: false,
            active: true,
            closed_remotely: false,
            expected_last_chunk_index: None,
            terminal: None,
            last_activity: now,
            pending_probe_nonce: None,
            control_nonce: 0,
            probe_deadline: None,
            close_grace_deadline: None,
            outbound_progress: 0,
        }
    }

    /// The stream's progress token.
    pub fn progress_token(&self) -> (r: &str)
        ensures
            r@ == self@.token,
    {
        self.progress_token.as_str()
    }

    /// Whether the stream is live.
    pub fn is_active(&self) -> (r: bool)
        ensures
            r == self@.active,
    {
        self.active
    }

    /// Whether `start` has been seen.
    pub fn has_started(&self) -> (r: bool)
        ensures
            r == self@.started,
    {
        self.started
    }

    fn sequence(&self, message: &str) -> (r: OpenStreamError)
        ensures
            r@ == StreamErrorV::Sequence(message@ + self@.token),
    {
        OpenStreamError::Sequence(join2(message, self.progress_token.as_str()))
    }

    /// The stream has to be live.
    fn assert_active(&self) -> (r: Result<(), OpenStreamError>)
        ensures
            r is Ok <==> self@.active,
            r matches Err(e) ==> e@ == StreamErrorV::Sequence(
                "Received frame for inactive stream "@ + self@.token,
            ),
    {
        if !self.active {
            return Err(self.sequence("Received frame for inactive stream "));
        }
        Ok(())
    }

    /// The stream has to have started.
    fn assert_started(&self) -> (r: Result<(), OpenStreamError>)
        ensures
            r is Ok <==> self@.started,
            r matches Err(e) ==> e@ == StreamErrorV::Sequence(
                "Received non-start frame before start for "@ + self@.token,
            ),
    {
        if !self.started {
            return Err(self.sequence("Received non-start frame before start for "));
        }
        Ok(())
    }

    /// Progress has to increase.
    fn assert_progress(&mut self, progress: i64) -> (r: Result<(), OpenStreamError>)
        ensures
            r is Ok <==> progress > old(self)@.last_progress,
            r is Ok ==> final(self)@ == (SessionV { last_progress: progress, ..old(self)@ }),
            r matches Err(e) ==> final(self)@ == old(self)@ && e@ == StreamErrorV::Sequence(
                "Non-increasing progress for stream "@ + old(self)@.token,
            ),
    {
        if progress <= self.last_progress {
            return Err(self.sequence("Non-increasing progress for stream "));
        }
        self.last_progress = progress;
        Ok(())
    }

    /// Stores a chunk until it is its turn.
    fn buffer_chunk(&mut self, chunk_index: u64, data: String) -> (r: Result<(), OpenStreamError>)
        ensures
            match old(self)@.chunk_refusal(chunk_index, data@) {
                Some(e) => final(self)@ == old(self)@ && (r matches Err(x) && x@ == e),
                None => r is Ok && final(self)@ == (SessionV {
                    buffered: old(self)@.buffered.insert(chunk_index, data@),
                    ..old(self)@
                }),
            },
    {
        if (chunk_index as u128) < self.next_expected_chunk.get() {
            return Err(
                self.sequence(
                    join3("Stale chunkIndex ", decimal_text(chunk_index).as_str(), " for ").as_str(),
                ),
            );
        }
        if self.buffered.contains(chunk_index) {
            return Err(
                self.sequence(
                    join3(
                        "Duplicate chunkIndex ",
                        decimal_text(chunk_index).as_str(),
                        " for ",
                    ).as_str(),
                ),
            );
        }
        let held: u128 = self.buffered.len() as u128 + self.queue.len() as u128;
        if held >= self.limits.max_buffered_chunks as u128 {
            return Err(self.sequence("Buffered chunk limit exceeded for stream "));
        }
        let room: u128 = self.limits.max_buffered_bytes as u128;
        let size: u128 = utf8_byte_len(data.as_str()) as u128;
        let a: u128 = self.buffered.bytes();
        let b: u128 = self.queue.bytes();
        if size > room || a > room - size || b > room - size - a {
            return Err(self.sequence("Buffered byte limit exceeded for stream "));
        }
        self.buffered.insert(chunk_index, data);
        Ok(())
    }

    /// Moves the contiguous run of buffered chunks to the queue and, once the peer has closed,
    /// tries to end the stream. Tells whether the stream is over.
    fn flush_contiguous_chunks(&mut self) -> (r: Result<bool, OpenStreamError>)
        ensures
            (final(self)@, finish_of(r)) == old(self)@.flushed().finished(),
    {
        let ghost s0 = self@;
        let _ = self.next_expected_chunk.get();
        assert(self@.queue =~= s0.queue + run_of(s0.buffered, s0.next, 0));
        assert(self@.buffered =~= outside(s0.buffered, s0.next, s0.next));
        loop
            invariant_except_break
                self@ == (SessionV {
                    queue: s0.queue + run_of(
                        s0.buffered,
                        s0.next,
                        (self@.next - s0.next) as nat,
                    ),
                    buffered: outside(s0.buffered, s0.next, self@.next),
                    next: self@.next,
                    ..s0
                }),
                s0.next <= self@.next <= u64::MAX + 1,
                forall|p: int| s0.next <= p < self@.next ==> has_chunk(s0.buffered, p),
            ensures
                self@ == s0.flushed(),
            decreases u64::MAX + 2 - self@.next,
        {
            let ghost at = self@.next;
            let ghost now_self = self@;
            let index: u128 = self.next_expected_chunk.get();
            if index > u64::MAX as u128 {
                proof {
                    frontier_unique(s0.buffered, s0.next, at);
                }
                break;
            }
            match self.buffered.remove(index as u64) {
                Some(data) => {
                    let ghost text = data@;
                    self.emit(data);
                    self.next_expected_chunk.advance();
                    proof {
                        assert(has_chunk(s0.buffered, at));
                        let n = (at - s0.next) as nat;
                        assert(run_of(s0.buffered, s0.next, n + 1) =~= run_of(
                            s0.buffered,
                            s0.next,
                            n,
                        ).push(text));
                        assert(self@.queue =~= s0.queue + run_of(s0.buffered, s0.next, n + 1));
                        assert(self@.buffered =~= outside(s0.buffered, s0.next, at + 1));
                    }
                },
                None => {
                    proof {
                        assert(self@.buffered =~= now_self.buffered);
                        assert(!has_chunk(s0.buffered, at));
                        frontier_unique(s0.buffered, s0.next, at);
                    }
                    break;
                },
            }
        }
        if self.closed_remotely {
            return self.maybe_finish_gracefully();
        }
        Ok(false)
    }

    /// Ends a stream that the peer has closed if nothing is missing.
    fn maybe_finish_gracefully(&mut self) -> (r: Result<bool, OpenStreamError>)
        ensures
            (final(self)@, finish_of(r)) == old(self)@.finished(),
    {
        if !self.closed_remotely || self.buffered.len() > 0 {
            return Ok(false);
        }
        if let Some(expected) = self.expected_last_chunk_index {
            if self.next_expected_chunk.get() != expected as u128 + 1 {
                let mut message = join2("Incomplete stream for ", self.progress_token.as_str());
                message.append(": expected chunks through ");
                message.append(decimal_text(expected).as_str());
                return Err(OpenStreamError::Sequence(message));
            }
        }
        self.finalize(None);
        Ok(true)
    }

    /// Queues a chunk for the consumer.
    fn emit(&mut self, data: String)
        ensures
            final(self)@ == (SessionV { queue: old(self)@.queue.push(data@), ..old(self)@ }),
    {
        self.queue.push(data);
    }

    /// Takes the answer to a probe.
    fn handle_pong(&mut self, nonce: &str)
        ensures
            final(self)@ == if old(self)@.probe_nonce == Some(nonce@) {
                SessionV { probe_nonce: None, probe_deadline: None, ..old(self)@ }
            } else {
                old(self)@
            },
    {
        let answered = match &self.pending_probe_nonce {
            Some(pending) => same_text(pending.as_str(), nonce),
            None => false,
        };
        if answered {
            self.pending_probe_nonce = None;
            self.probe_deadline = None;
        }
    }

    /// A nonce that has not been used before.
    fn next_control_nonce(&mut self) -> (r: String)
        ensures
            final(self)@ == (SessionV { nonces: old(self)@.next_nonce(), ..old(self)@ }),
            r@ == nonce_text(old(self)@.token, old(self)@.next_nonce()),
    {
        self.control_nonce = self.control_nonce.wrapping_add(1);
        join3(self.progress_token.as_str(), ":", decimal_text(self.control_nonce).as_str())
    }

    /// Ends the stream. A stream that is over already stays as it is.
    fn finalize(&mut self, error: Option<OpenStreamError>)
        ensures
            final(self)@ == old(self)@.finalized(opt_stream_error(error)),
    {
        if !self.active {
            return;
        }
        self.active = false;
        self.terminal = error;
        self.pending_probe_nonce = None;
        self.probe_deadline = None;
        self.close_grace_deadline = None;
    }

    /// Takes one inbound frame. On a violation the failure is returned and the stream stays
    /// live: whether to [`fail`](Self::fail) it is up to the caller.
    pub fn process_frame(&mut self, now: u64, progress: i64, frame: OpenStreamFrame) -> (r: Result<
        FrameOutcome,
        OpenStreamError,
    >)
        ensures
            (final(self)@, result_of(r)) == old(self)@.step(now, progress, frame@),
    {
        if let Err(e) = self.assert_active() {
            return Err(e);
        }
        if let Err(e) = self.assert_progress(progress) {
            return Err(e);
        }
        self.last_activity = now;
        let ghost s1 = self@;
        match frame {
            OpenStreamFrame::Start { content_type: _ } => {
                if self.started {
                    return Err(self.sequence("Duplicate start frame for stream "));
                }
                self.started = true;
                Ok(FrameOutcome::Nothing)
            },
            OpenStreamFrame::Accept => Ok(FrameOutcome::Nothing),
            OpenStreamFrame::Ping { nonce } => {
                if let Err(e) = self.assert_started() {
                    return Err(e);
                }
                Ok(FrameOutcome::SendPong(nonce))
            },
            OpenStreamFrame::Pong { nonce } => {
                if let Err(e) = self.assert_started() {
                    return Err(e);
                }
                self.handle_pong(nonce.as_str());
                Ok(FrameOutcome::Nothing)
            },
            OpenStreamFrame::Chunk { chunk_index, data } => {
                if let Err(e) = self.assert_started() {
                    return Err(e);
                }
                if let Err(e) = self.buffer_chunk(chunk_index, data) {
                    return Err(e);
                }
                match self.flush_contiguous_chunks() {
                    Ok(true) => Ok(FrameOutcome::Closed),
                    Ok(false) => Ok(FrameOutcome::Nothing),
                    Err(e) => Err(e),
                }
            },
            OpenStreamFrame::Close { last_chunk_index } => {
                if let Err(e) = self.assert_started() {
                    return Err(e);
                }
                self.closed_remotely = true;
                self.expected_last_chunk_index = last_chunk_index;
                match self.flush_contiguous_chunks() {
                    Ok(true) => Ok(FrameOutcome::Closed),
                    Ok(false) => {
                        self.close_grace_deadline = Some(
                            now as u128 + self.limits.close_grace_period_ms as u128,
                        );
                        Ok(FrameOutcome::Nothing)
                    },
                    Err(e) => Err(e),
                }
            },
            OpenStreamFrame::Abort { reason } => {
                let copy = clone_opt(&reason);
                self.finalize(Some(OpenStreamError::abort(self.progress_token.clone(), copy)));
                Ok(FrameOutcome::Aborted(reason))
            },
        }
    }

    /// Checks the deadlines at `now`: an overdue probe or an overdue missing chunk aborts the
    /// stream, and an idle stream is probed.
    pub fn tick(&mut self, now: u64) -> (r: KeepaliveAction)
        ensures
            (final(self)@, r@) == old(self)@.ticked(now),
    {
        if !self.active {
            return KeepaliveAction::Nothing;
        }
        if let Some(deadline) = self.probe_deadline {
            if self.pending_probe_nonce.is_some() && now as u128 >= deadline {
                self.finalize(
                    Some(
                        OpenStreamError::abort(
                            self.progress_token.clone(),
                            Some("Probe timeout".to_owned()),
                        ),
                    ),
                );
                return KeepaliveAction::Abort("Probe timeout".to_owned());
            }
        }
        if let Some(deadline) = self.close_grace_deadline {
            if self.closed_remotely && self.buffered.len() > 0 && now as u128 >= deadline {
                self.finalize(
                    Some(
                        OpenStreamError::abort(
                            self.progress_token.clone(),
                            Some("Close grace period expired".to_owned()),
                        ),
                    ),
                );
                return KeepaliveAction::Abort("Close grace period expired".to_owned());
            }
        }
        let idle_for: u64 = if now > self.last_activity {
            now - self.last_activity
        } else {
            0
        };
        if !self.closed_remotely && self.pending_probe_nonce.is_none() && idle_for
            >= self.limits.idle_timeout_ms {
            let nonce = self.next_control_nonce();
            self.pending_probe_nonce = Some(nonce.clone());
            self.probe_deadline = Some(now as u128 + self.limits.probe_timeout_ms as u128);
            return KeepaliveAction::SendPing(nonce);
        }
        KeepaliveAction::Nothing
    }

    /// Ends the stream with a failure. Nothing is published.
    pub fn fail(&mut self, error: OpenStreamError)
        ensures
            final(self)@ == old(self)@.finalized(Some(error@)),
    {
        self.finalize(Some(error));
    }

    /// Ends the stream without a failure.
    pub fn dispose(&mut self)
        ensures
            final(self)@ == old(self)@.finalized(None),
    {
        self.finalize(None);
    }

    /// The consumer gives up. Returns the `abort` notification that is to be published, if the
    /// stream was live and can publish.
    pub fn abort(&mut self, reason: Option<String>) -> (r: Option<JsonRpcNotification>)
        ensures
            final(self)@ == old(self)@.aborted(opt_text(reason)).0,
            match r {
                Some(n) => old(self)@.aborted(opt_text(reason)).1 == Some(n@),
                None => old(self)@.aborted(opt_text(reason)).1 is None,
            },
    {
        if !self.active {
            return None;
        }
        let copy = clone_opt(&reason);
        self.finalize(Some(OpenStreamError::abort(self.progress_token.clone(), copy)));
        if !self.can_publish {
            return None;
        }
        self.outbound_progress = self.outbound_progress.wrapping_add(1);
        Some(
            OpenStreamFrame::Abort { reason }.into_progress_notification(
                self.progress_token.as_str(),
                self.outbound_progress,
                None,
            ),
        )
    }

    /// What the consumer gets next.
    pub fn poll_next(&mut self) -> (r: StreamItem)
        ensures
            (final(self)@, r@) == old(self)@.polled(),
    {
        if let Some(item) = self.queue.pop_front() {
            return StreamItem::Chunk(item);
        }
        if self.active {
            return StreamItem::Pending;
        }
        match self.terminal.take() {
            Some(error) => StreamItem::Failed(error),
            None => StreamItem::Ended,
        }
    }
}

/// Every run of chunks ends somewhere.
pub proof fn first_gap_exists(chunks: Map<u64, Seq<char>>, first: int)
    requires
        first <= u64::MAX + 1,
    ensures
        is_frontier(chunks, first, frontier(chunks, first)),
    decreases u64::MAX + 1 - first,
{
    if !has_chunk(chunks, first) {
        assert(is_frontier(chunks, first, first));
    } else {
        first_gap_exists(chunks, first + 1);
        let end = frontier(chunks, first + 1);
        assert(is_frontier(chunks, first, end));
    }
}

} // verus!
