//! The streams that one peer has open towards this end.

use vstd::prelude::*;
use vstd::string::*;

use super::constants::{
    DEFAULT_MAX_BUFFERED_BYTES_PER_STREAM, DEFAULT_MAX_BUFFERED_CHUNKS_PER_STREAM,
    DEFAULT_MAX_CONCURRENT_OPEN_STREAMS, DEFAULT_OPEN_STREAM_CLOSE_GRACE_PERIOD_MS,
    DEFAULT_OPEN_STREAM_IDLE_TIMEOUT_MS, DEFAULT_OPEN_STREAM_PROBE_TIMEOUT_MS, OPEN_STREAM_TYPE,
};
use super::errors::{OpenStreamError, StreamErrorV};
use super::frame::{stream_frame_of, OpenStreamFrame, StreamFrameV};
use super::session::{
    result_of, FrameOutcome, KeepaliveAction, KeepaliveV, OpenStreamSession,
    OpenStreamSessionOptions, OutcomeV, SessionV, StreamLimits,
};
use crate::json::{opt_json_ref, Json, JsonV, Number, NumberV};
use crate::message::{JsonRpcNotification, NotificationV};
use crate::text::{clone_opt, join2, join3, opt_text, texts};
use crate::text_map::TextMap;
use crate::transport::oversized_transfer::frame::{param, progress_token_string, text_of};
use crate::transport::oversized_transfer::receiver::{about, about_text, token_of};

verus! {

/// Limits on the streams of one peer.
#[derive(Clone, Copy, PartialEq, Eq, Structural, Debug)]
pub struct OpenStreamRegistryPolicy {
    /// Most streams open at once.
    pub max_concurrent_streams: usize,
    /// Most chunks that a stream may buffer and queue.
    pub max_buffered_chunks_per_stream: usize,
    /// Most bytes that a stream may buffer and queue.
    pub max_buffered_bytes_per_stream: usize,
    /// Idle time before a stream is probed.
    pub idle_timeout_ms: u64,
    /// Time to wait for the answer to a probe.
    pub probe_timeout_ms: u64,
    /// Time to wait for missing chunks after a close.
    pub close_grace_period_ms: u64,
}

impl OpenStreamRegistryPolicy {
    /// The default limits.
    pub open spec fn standard() -> OpenStreamRegistryPolicy {
        OpenStreamRegistryPolicy {
            max_concurrent_streams: DEFAULT_MAX_CONCURRENT_OPEN_STREAMS,
            max_buffered_chunks_per_stream: DEFAULT_MAX_BUFFERED_CHUNKS_PER_STREAM,
            max_buffered_bytes_per_stream: DEFAULT_MAX_BUFFERED_BYTES_PER_STREAM,
            idle_timeout_ms: DEFAULT_OPEN_STREAM_IDLE_TIMEOUT_MS,
            probe_timeout_ms: DEFAULT_OPEN_STREAM_PROBE_TIMEOUT_MS,
            close_grace_period_ms: DEFAULT_OPEN_STREAM_CLOSE_GRACE_PERIOD_MS,
        }
    }

    /// The limits of a single stream.
    pub open spec fn stream_limits(self) -> StreamLimits {
        StreamLimits {
            max_buffered_chunks: self.max_buffered_chunks_per_stream,
            max_buffered_bytes: self.max_buffered_bytes_per_stream as u64,
            idle_timeout_ms: self.idle_timeout_ms,
            probe_timeout_ms: self.probe_timeout_ms,
            close_grace_period_ms: self.close_grace_period_ms,
        }
    }
}

impl Default for OpenStreamRegistryPolicy {
    fn default() -> (r: Self)
        ensures
            r == OpenStreamRegistryPolicy::standard(),
    {
        OpenStreamRegistryPolicy {
            max_concurrent_streams: DEFAULT_MAX_CONCURRENT_OPEN_STREAMS,
            max_buffered_chunks_per_stream: DEFAULT_MAX_BUFFERED_CHUNKS_PER_STREAM,
            max_buffered_bytes_per_stream: DEFAULT_MAX_BUFFERED_BYTES_PER_STREAM,
            idle_timeout_ms: DEFAULT_OPEN_STREAM_IDLE_TIMEOUT_MS,
            probe_timeout_ms: DEFAULT_OPEN_STREAM_PROBE_TIMEOUT_MS,
            close_grace_period_ms: DEFAULT_OPEN_STREAM_CLOSE_GRACE_PERIOD_MS,
        }
    }
}

/// How a stream came to its end.
#[derive(Debug, PartialEq, Eq)]
pub enum StreamEnd {
    /// It closed.
    Closed,
    /// It was aborted or failed, for this reason.
    Aborted(Option<String>),
}

/// Model of [`StreamEnd`].
pub enum EndV {
    Closed,
    Aborted(Option<Seq<char>>),
}

impl View for StreamEnd {
    type V = EndV;

    open spec fn view(&self) -> EndV {
        match self {
            StreamEnd::Closed => EndV::Closed,
            StreamEnd::Aborted(r) => EndV::Aborted(opt_text(*r)),
        }
    }
}

/// The model of the end of a stream that may have ended.
pub open spec fn opt_end(e: Option<StreamEnd>) -> Option<EndV> {
    match e {
        Some(e) => Some(e@),
        None => None,
    }
}

/// A stream that is no longer registered. Its consumer drains what is left in it, and the
/// caller runs the hook that goes with its end.
pub struct EndedStream {
    /// The stream.
    pub session: OpenStreamSession,
    /// How it ended.
    pub end: StreamEnd,
}

/// The model of an ended stream.
pub open spec fn opt_ended(e: Option<EndedStream>) -> Option<(SessionV, EndV)> {
    match e {
        Some(x) => Some((x.session@, x.end@)),
        None => None,
    }
}

/// What came of one frame.
pub struct RoutedFrame {
    /// What the frame asks of the caller, or why it was refused.
    pub result: Result<FrameOutcome, OpenStreamError>,
    /// The stream that it ended, if any.
    pub ended: Option<EndedStream>,
}

/// What came of one keepalive sweep.
pub struct Sweep {
    /// The actions to perform, each with its token.
    pub actions: Vec<(String, KeepaliveAction)>,
    /// The streams that it ended, each with its token.
    pub ended: Vec<(String, OpenStreamSession)>,
}

/// Model of [`OpenStreamRegistry`].
pub struct RegistryV {
    /// The limits.
    pub policy: OpenStreamRegistryPolicy,
    /// The open streams by token.
    pub sessions: Map<Seq<char>, SessionV>,
}

/// The streams that one peer has open.
pub struct OpenStreamRegistry {
    policy: OpenStreamRegistryPolicy,
    sessions: TextMap<OpenStreamSession>,
}

/// The models of the open streams.
pub open spec fn sessions_view(m: Map<Seq<char>, OpenStreamSession>) -> Map<Seq<char>, SessionV> {
    Map::new(|k: Seq<char>| m.contains_key(k), |k: Seq<char>| m[k]@)
}

impl View for OpenStreamRegistry {
    type V = RegistryV;

    closed spec fn view(&self) -> RegistryV {
        RegistryV { policy: self.policy, sessions: sessions_view(self.sessions@) }
    }
}

/// Why a stream cannot be opened, if it cannot.
pub open spec fn open_refusal(r: RegistryV, token: Seq<char>) -> Option<StreamErrorV> {
    if r.sessions.contains_key(token) {
        Some(StreamErrorV::Sequence("Stream session already exists for "@ + token))
    } else if r.sessions.len() >= r.policy.max_concurrent_streams {
        Some(StreamErrorV::Policy("Maximum concurrent open streams exceeded"@))
    } else {
        None
    }
}

/// The progress of a frame, as an integer.
pub open spec fn stream_progress_of(v: Option<JsonV>) -> Option<i64> {
    match v {
        Some(JsonV::Number(NumberV::Unsigned(n))) => if n <= i64::MAX {
            Some(n as i64)
        } else {
            Some(i64::MAX)
        },
        Some(JsonV::Number(NumberV::Signed(n))) => Some(n),
        Some(JsonV::Number(NumberV::Fraction { clamped_i64, .. })) => Some(clamped_i64),
        _ => None,
    }
}

/// The token, progress and frame of a notification, or why it is malformed.
pub open spec fn parsed(n: NotificationV) -> Result<(Seq<char>, i64, StreamFrameV), StreamErrorV> {
    if n.params is None {
        Err(StreamErrorV::Sequence("Open stream frame is missing params"@))
    } else if stream_frame_of(n) is None {
        Err(StreamErrorV::Sequence("Notification is not an open-stream frame"@))
    } else if token_of(n).len() == 0 {
        Err(StreamErrorV::Sequence("Open stream frame is missing progressToken"@))
    } else {
        match stream_progress_of(param(n, "progress"@)) {
            Some(progress) => Ok((token_of(n), progress, stream_frame_of(n).unwrap())),
            None => Err(
                StreamErrorV::Sequence(about("Invalid progress value"@, token_of(n))),
            ),
        }
    }
}

/// The text of a failure, as it is reported for an aborted stream.
pub open spec fn failure_reason(e: StreamErrorV) -> Option<Seq<char>> {
    match e {
        StreamErrorV::Sequence(m) => Some(m),
        StreamErrorV::Policy(m) => Some(m),
        StreamErrorV::Abort { reason, .. } => reason,
    }
}

/// What came of one frame, in the model.
pub struct RoutedV {
    pub result: Result<OutcomeV, StreamErrorV>,
    pub ended: Option<(SessionV, EndV)>,
}

/// What a frame does to the registered stream `token`: a stream that closes, is aborted or
/// fails is taken out.
pub open spec fn deliver(
    r: RegistryV,
    now: u64,
    token: Seq<char>,
    progress: i64,
    frame: StreamFrameV,
) -> (RegistryV, RoutedV) {
    let (after, result) = r.sessions[token].step(now, progress, frame);
    let without = RegistryV { sessions: r.sessions.remove(token), ..r };
    match result {
        Ok(OutcomeV::Closed) => (without, RoutedV { result, ended: Some((after, EndV::Closed)) }),
        Ok(OutcomeV::Aborted(reason)) => (
            without,
            RoutedV { result, ended: Some((after, EndV::Aborted(reason))) },
        ),
        Ok(_) => (
            RegistryV { sessions: r.sessions.insert(token, after), ..r },
            RoutedV { result, ended: None },
        ),
        Err(e) => (
            without,
            RoutedV {
                result,
                ended: Some((after.finalized(Some(e)), EndV::Aborted(failure_reason(e)))),
            },
        ),
    }
}

/// What one notification does: a `start` opens a stream, and any other frame needs one.
pub open spec fn route(r: RegistryV, now: u64, n: NotificationV) -> (RegistryV, RoutedV) {
    match parsed(n) {
        Err(e) => (r, RoutedV { result: Err(e), ended: None }),
        Ok((token, progress, frame)) => if r.sessions.contains_key(token) {
            deliver(r, now, token, progress, frame)
        } else if !(frame is Start) {
            (
                r,
                RoutedV {
                    result: Err(
                        StreamErrorV::Sequence(
                            "Received "@ + frame.frame_type() + " frame before start for "@ + token,
                        ),
                    ),
                    ended: None,
                },
            )
        } else {
            match open_refusal(r, token) {
                Some(e) => (r, RoutedV { result: Err(e), ended: None }),
                None => deliver(
                    opened(r, token, false, now),
                    now,
                    token,
                    progress,
                    frame,
                ),
            }
        },
    }
}

/// The registry with a new stream.
pub open spec fn opened(r: RegistryV, token: Seq<char>, can_publish: bool, now: u64) -> RegistryV {
    RegistryV {
        sessions: r.sessions.insert(
            token,
            SessionV::fresh(token, r.policy.stream_limits(), can_publish, now),
        ),
        ..r
    }
}

/// The streams after a keepalive tick: those that it aborted are gone.
pub open spec fn swept(sessions: Map<Seq<char>, SessionV>, now: u64) -> Map<Seq<char>, SessionV> {
    Map::new(
        |k: Seq<char>| sessions.contains_key(k) && !(sessions[k].ticked(now).1 is Abort),
        |k: Seq<char>| sessions[k].ticked(now).0,
    )
}

/// The models of keepalive actions.
pub open spec fn actions_view(actions: Seq<(String, KeepaliveAction)>) -> Seq<
    (Seq<char>, KeepaliveV),
> {
    Seq::new(actions.len(), |i: int| (actions[i].0@, actions[i].1@))
}

/// The models of streams with their tokens.
pub open spec fn streams_view(streams: Seq<(String, OpenStreamSession)>) -> Seq<
    (Seq<char>, SessionV),
> {
    Seq::new(streams.len(), |i: int| (streams[i].0@, streams[i].1@))
}

impl Default for OpenStreamRegistry {
    fn default() -> (r: Self)
        ensures
            r@ == (RegistryV {
                policy: OpenStreamRegistryPolicy::standard(),
                sessions: Map::empty(),
            }),
    {
        OpenStreamRegistry::new()
    }
}

impl OpenStreamRegistry {
    /// Finitely many streams are open, and each of them buffers finitely many chunks.
    pub proof fn is_finite(&self)
        ensures
            self@.sessions.dom().finite(),
            forall|k: Seq<char>| #[trigger]
                self@.sessions.contains_key(k) ==> self@.sessions[k].buffered.dom().finite(),
    {
        self.sessions.is_finite();
        assert(self@.sessions.dom() =~= self.sessions@.dom());
        assert forall|k: Seq<char>| #[trigger]
            self@.sessions.contains_key(k) implies self@.sessions[k].buffered.dom().finite() by {
            self.sessions@[k].buffers_finitely();
        }
    }

    /// A registry with the default limits.
    pub fn new() -> (r: Self)
        ensures
            r@ == (RegistryV {
                policy: OpenStreamRegistryPolicy::standard(),
                sessions: Map::empty(),
            }),
    {
        OpenStreamRegistry::with_policy(OpenStreamRegistryPolicy::default())
    }

    /// A registry with the given limits.
    pub fn with_policy(policy: OpenStreamRegistryPolicy) -> (r: Self)
        ensures
            r@ == (RegistryV { policy, sessions: Map::empty() }),
    {
        let r = OpenStreamRegistry { policy, sessions: TextMap::new() };
        assert(r@.sessions =~= Map::<Seq<char>, SessionV>::empty());
        r
    }

    /// Number of open streams.
    pub fn size(&self) -> (r: usize)
        ensures
            r == self@.sessions.len(),
            self@.sessions.dom().finite(),
    {
        assert(self@.sessions.dom() =~= self.sessions@.dom());
        self.sessions.len()
    }

    /// The open stream `progress_token`.
    pub fn get_session(&self, progress_token: &str) -> (r: Option<&OpenStreamSession>)
        ensures
            match r {
                Some(s) => self@.sessions.contains_key(progress_token@) && s@
                    == self@.sessions[progress_token@],
                None => !self@.sessions.contains_key(progress_token@),
            },
    {
        self.sessions.get(progress_token)
    }

    /// Takes the next item out of the open stream `progress_token`, on behalf of its consumer.
    pub fn poll_session(&mut self, progress_token: &str) -> (r: Option<super::session::StreamItem>)
        ensures
            final(self)@.policy == old(self)@.policy,
            match r {
                Some(item) => old(self)@.sessions.contains_key(progress_token@)
                    && final(self)@.sessions == old(self)@.sessions.insert(
                    progress_token@,
                    old(self)@.sessions[progress_token@].polled().0,
                ) && item@ == old(self)@.sessions[progress_token@].polled().1,
                None => !old(self)@.sessions.contains_key(progress_token@) && final(self)@
                    == old(self)@,
            },
    {
        let ghost before = self@.sessions;
        match self.sessions.remove(progress_token) {
            Some(s) => {
                let mut session = s;
                let item = session.poll_next();
                let _ = self.sessions.insert(progress_token.to_owned(), session);
                assert(self@.sessions =~= before.insert(progress_token@, session@));
                Some(item)
            },
            None => {
                assert(self@.sessions =~= before);
                None
            },
        }
    }

    /// Whether the notification carries something of the shape of an open-stream frame.
    pub fn is_open_stream_progress(notification: &JsonRpcNotification) -> (r: bool)
        ensures
            r == looks_like_stream_frame(notification@),
    {
        match &notification.params {
            Some(params) => match params.get("cvm") {
                Some(cvm) => OpenStreamFrame::is_frame_value(cvm),
                None => false,
            },
            None => false,
        }
    }

    /// Opens a stream that cannot publish an abort of its consumer.
    pub fn create_session(&mut self, progress_token: &str, now: u64) -> (r: Result<
        (),
        OpenStreamError,
    >)
        ensures
            match open_refusal(old(self)@, progress_token@) {
                Some(e) => final(self)@ == old(self)@ && (r matches Err(x) && x@ == e),
                None => r is Ok && final(self)@ == opened(old(self)@, progress_token@, false, now),
            },
    {
        self.create_session_with(progress_token, false, now)
    }

    /// Opens a stream.
    pub fn create_session_with(&mut self, progress_token: &str, can_publish: bool, now: u64) -> (r:
        Result<(), OpenStreamError>)
        ensures
            match open_refusal(old(self)@, progress_token@) {
                Some(e) => final(self)@ == old(self)@ && (r matches Err(x) && x@ == e),
                None => r is Ok && final(self)@ == opened(
                    old(self)@,
                    progress_token@,
                    can_publish,
                    now,
                ),
            },
    {
        let ghost before = self@;
        if self.sessions.contains_key(progress_token) {
            return Err(
                OpenStreamError::Sequence(
                    join2("Stream session already exists for ", progress_token),
                ),
            );
        }
        if self.size() >= self.policy.max_concurrent_streams {
            return Err(
                OpenStreamError::Policy("Maximum concurrent open streams exceeded".to_owned()),
            );
        }
        let limits = StreamLimits {
            max_buffered_chunks: self.policy.max_buffered_chunks_per_stream,
            max_buffered_bytes: self.policy.max_buffered_bytes_per_stream as u64,
            idle_timeout_ms: self.policy.idle_timeout_ms,
            probe_timeout_ms: self.policy.probe_timeout_ms,
            close_grace_period_ms: self.policy.close_grace_period_ms,
        };
        let session = OpenStreamSession::new(
            OpenStreamSessionOptions {
                progress_token: progress_token.to_owned(),
                limits,
                can_publish,
            },
            now,
        );
        let _ = self.sessions.insert(progress_token.to_owned(), session);
        assert(self@.sessions =~= opened(before, progress_token@, can_publish, now).sessions);
        Ok(())
    }

    /// Opens a stream unless it is open already.
    pub fn get_or_create_session(&mut self, progress_token: &str, now: u64) -> (r: Result<
        (),
        OpenStreamError,
    >)
        ensures
            if old(self)@.sessions.contains_key(progress_token@) {
                r is Ok && final(self)@ == old(self)@
            } else {
                match open_refusal(old(self)@, progress_token@) {
                    Some(e) => final(self)@ == old(self)@ && (r matches Err(x) && x@ == e),
                    None => r is Ok && final(self)@ == opened(
                        old(self)@,
                        progress_token@,
                        false,
                        now,
                    ),
                }
            },
    {
        if self.sessions.contains_key(progress_token) {
            return Ok(());
        }
        self.create_session(progress_token, now)
    }

    /// Takes one inbound notification.
    pub fn process_frame(&mut self, now: u64, notification: &JsonRpcNotification) -> (r:
        RoutedFrame)
        ensures
            final(self)@ == route(old(self)@, now, notification@).0,
            result_of(r.result) == route(old(self)@, now, notification@).1.result,
            opt_ended(r.ended) == route(old(self)@, now, notification@).1.ended,
    {
        let (token, progress, frame) = match parse_frame(notification) {
            Ok(x) => x,
            Err(e) => {
                return RoutedFrame { result: Err(e), ended: None };
            },
        };
        if !self.sessions.contains_key(token.as_str()) {
            let opens = match &frame {
                OpenStreamFrame::Start { .. } => true,
                _ => false,
            };
            if !opens {
                let mut message = join3(
                    "Received ",
                    frame.frame_type(),
                    " frame before start for ",
                );
                message.append(token.as_str());
                return RoutedFrame {
                    result: Err(OpenStreamError::Sequence(message)),
                    ended: None,
                };
            }
            if let Err(e) = self.create_session_with(token.as_str(), false, now) {
                return RoutedFrame { result: Err(e), ended: None };
            }
        }
        self.deliver_frame(now, token, progress, frame)
    }

    fn deliver_frame(&mut self, now: u64, token: String, progress: i64, frame: OpenStreamFrame) -> (r:
        RoutedFrame)
        requires
            old(self)@.sessions.contains_key(token@),
        ensures
            final(self)@ == deliver(old(self)@, now, token@, progress, frame@).0,
            result_of(r.result) == deliver(old(self)@, now, token@, progress, frame@).1.result,
            opt_ended(r.ended) == deliver(old(self)@, now, token@, progress, frame@).1.ended,
    {
        let ghost before = self@.sessions;
        let ghost name = token@;
        match self.sessions.remove(token.as_str()) {
            Some(s) => {
                assert(self@.sessions =~= before.remove(name));
                let mut session = s;
                match session.process_frame(now, progress, frame) {
                    Ok(FrameOutcome::Closed) => RoutedFrame {
                        result: Ok(FrameOutcome::Closed),
                        ended: Some(EndedStream { session, end: StreamEnd::Closed }),
                    },
                    Ok(FrameOutcome::Aborted(reason)) => {
                        let copy = clone_opt(&reason);
                        RoutedFrame {
                            result: Ok(FrameOutcome::Aborted(reason)),
                            ended: Some(EndedStream { session, end: StreamEnd::Aborted(copy) }),
                        }
                    },
                    Ok(other) => {
                        let _ = self.sessions.insert(token, session);
                        assert(self@.sessions =~= before.insert(name, session@));
                        RoutedFrame { result: Ok(other), ended: None }
                    },
                    Err(error) => {
                        let reason = reason_text(&error);
                        session.fail(error.duplicate());
                        RoutedFrame {
                            result: Err(error),
                            ended: Some(EndedStream { session, end: StreamEnd::Aborted(reason) }),
                        }
                    },
                }
            },
            None => {
                assert(self@.sessions.contains_key(name));
                RoutedFrame { result: Ok(FrameOutcome::Nothing), ended: None }
            },
        }
    }

    /// Runs the keepalive check of every stream at `now`. Streams that it aborts are taken out.
    pub fn tick_all(&mut self, now: u64) -> (r: Sweep)
        ensures
            final(self)@ == (RegistryV {
                sessions: swept(old(self)@.sessions, now),
                ..old(self)@
            }),
            forall|k: Seq<char>, a: KeepaliveV| #[trigger]
                actions_view(r.actions@).contains((k, a)) <==> old(self)@.sessions.contains_key(k)
                    && old(self)@.sessions[k].ticked(now).1 == a && !(a is Nothing),
            actions_view(r.actions@).no_duplicates(),
            forall|k: Seq<char>, s: SessionV| #[trigger]
                streams_view(r.ended@).contains((k, s)) <==> old(self)@.sessions.contains_key(k)
                    && old(self)@.sessions[k].ticked(now).1 is Abort
                    && s == old(self)@.sessions[k].ticked(now).0,
            streams_view(r.ended@).no_duplicates(),
    {
        let ghost start = self@.sessions;
        let mut actions: Vec<(String, KeepaliveAction)> = Vec::new();
        let mut ended: Vec<(String, OpenStreamSession)> = Vec::new();
        let keys = self.sessions.keys();
        let ghost names = texts(keys@);
        let mut i: usize = 0;
        proof {
            assert(start.dom() =~= self.sessions@.dom());
        }
        while i < keys.len()
            invariant
                i <= keys@.len(),
                names == texts(keys@),
                names.no_duplicates(),
                names.to_set() == start.dom(),
                self@.policy == old(self)@.policy,
                start == old(self)@.sessions,
                forall|k: Seq<char>| #[trigger]
                    self@.sessions.contains_key(k) <==> start.contains_key(k) && (
                    !names.take(i as int).contains(k) || !(start[k].ticked(now).1 is Abort)),
                forall|k: Seq<char>| #[trigger]
                    self@.sessions.contains_key(k) ==> self@.sessions[k] == (if names.take(
                        i as int,
                    ).contains(k) {
                        start[k].ticked(now).0
                    } else {
                        start[k]
                    }),
                forall|k: Seq<char>, a: KeepaliveV| #[trigger]
                    actions_view(actions@).contains((k, a)) <==> names.take(i as int).contains(k)
                        && start[k].ticked(now).1 == a && !(a is Nothing),
                actions_view(actions@).no_duplicates(),
                forall|k: Seq<char>, s: SessionV| #[trigger]
                    streams_view(ended@).contains((k, s)) <==> names.take(i as int).contains(k)
                        && start[k].ticked(now).1 is Abort && s == start[k].ticked(now).0,
                streams_view(ended@).no_duplicates(),
            decreases keys@.len() - i,
        {
            let ghost name = names[i as int];
            let ghost before = self@.sessions;
            let ghost acted = actions_view(actions@);
            let ghost gone = streams_view(ended@);
            let ghost seen = names.take(i as int);
            proof {
                assert(name == keys@[i as int]@);
                assert(names.contains(name));
                assert(names.to_set().contains(name));
                assert(names.take(i + 1) =~= seen.push(name));
                assert(!seen.contains(name)) by {
                    if seen.contains(name) {
                        let j = seen.index_of(name);
                        assert(names[j] == names[i as int]);
                    }
                }
                assert forall|k: Seq<char>| names.take(i + 1).contains(k) == (seen.contains(k) || k
                    == name) by {
                    if seen.contains(k) {
                        let j = seen.index_of(k);
                        assert(names.take(i + 1)[j] == k);
                    }
                    assert(names.take(i + 1)[i as int] == name);
                }
            }
            match self.sessions.remove(keys[i].as_str()) {
                Some(s) => {
                    assert(before.contains_key(name));
                    assert(s@ == start[name]);
                    let mut session = s;
                    let action = session.tick(now);
                    let ghost after = session@;
                    match action {
                        KeepaliveAction::Nothing => {
                            let _ = self.sessions.insert(keys[i].clone(), session);
                            assert(self@.sessions =~= before.insert(name, after));
                        },
                        KeepaliveAction::SendPing(nonce) => {
                            let _ = self.sessions.insert(keys[i].clone(), session);
                            assert(self@.sessions =~= before.insert(name, after));
                            actions.push((keys[i].clone(), KeepaliveAction::SendPing(nonce)));
                            proof {
                                assert(actions_view(actions@) =~= acted.push(
                                    (name, start[name].ticked(now).1),
                                ));
                                grown(
                                    acted,
                                    actions_view(actions@),
                                    (name, start[name].ticked(now).1),
                                );
                            }
                        },
                        KeepaliveAction::Abort(reason) => {
                            assert(self@.sessions =~= before.remove(name));
                            actions.push((keys[i].clone(), KeepaliveAction::Abort(reason)));
                            ended.push((keys[i].clone(), session));
                            proof {
                                assert(actions_view(actions@) =~= acted.push(
                                    (name, start[name].ticked(now).1),
                                ));
                                grown(
                                    acted,
                                    actions_view(actions@),
                                    (name, start[name].ticked(now).1),
                                );
                                assert(streams_view(ended@) =~= gone.push((name, after)));
                                grown(gone, streams_view(ended@), (name, after));
                            }
                        },
                    }
                },
                None => {
                    assert(before.contains_key(name));
                },
            }
            i = i + 1;
        }
        proof {
            assert(names.take(names.len() as int) =~= names);
            assert forall|k: Seq<char>| start.contains_key(k) == names.contains(k) by {
                assert(names.to_set().contains(k) == start.dom().contains(k));
            }
            assert(self@.sessions =~= swept(start, now));
        }
        Sweep { actions, ended }
    }

    /// Ends every stream without a failure and returns them with their tokens.
    pub fn clear(&mut self) -> (r: Vec<(String, OpenStreamSession)>)
        ensures
            final(self)@ == (RegistryV { sessions: Map::empty(), ..old(self)@ }),
            forall|k: Seq<char>, s: SessionV| #[trigger]
                streams_view(r@).contains((k, s)) <==> old(self)@.sessions.contains_key(k) && s
                    == old(self)@.sessions[k].finalized(None),
            streams_view(r@).no_duplicates(),
    {
        let ghost start = self@.sessions;
        let keys = self.sessions.keys();
        let ghost names = texts(keys@);
        let mut out: Vec<(String, OpenStreamSession)> = Vec::new();
        let mut i: usize = 0;
        proof {
            assert(start.dom() =~= self.sessions@.dom());
        }
        while i < keys.len()
            invariant
                i <= keys@.len(),
                names == texts(keys@),
                names.no_duplicates(),
                names.to_set() == start.dom(),
                self@.policy == old(self)@.policy,
                forall|j: int| i <= j < names.len() ==> self@.sessions.contains_key(#[trigger] names[j])
                    && self@.sessions[names[j]] == start[names[j]],
                forall|k: Seq<char>, s: SessionV| #[trigger]
                    streams_view(out@).contains((k, s)) <==> names.take(i as int).contains(k) && s
                        == start[k].finalized(None),
                streams_view(out@).no_duplicates(),
            decreases keys@.len() - i,
        {
            let ghost name = names[i as int];
            let ghost before = self@.sessions;
            let ghost gone = streams_view(out@);
            let ghost seen = names.take(i as int);
            proof {
                assert(name == keys@[i as int]@);
                assert(names.take(i + 1) =~= seen.push(name));
                assert(!seen.contains(name)) by {
                    if seen.contains(name) {
                        let j = seen.index_of(name);
                        assert(names[j] == names[i as int]);
                    }
                }
                assert forall|k: Seq<char>| names.take(i + 1).contains(k) == (seen.contains(k) || k
                    == name) by {
                    if seen.contains(k) {
                        let j = seen.index_of(k);
                        assert(names.take(i + 1)[j] == k);
                    }
                    assert(names.take(i + 1)[i as int] == name);
                }
            }
            match self.sessions.remove(keys[i].as_str()) {
                Some(s) => {
                    let mut session = s;
                    session.dispose();
                    out.push((keys[i].clone(), session));
                    proof {
                        assert(self@.sessions =~= before.remove(name));
                        assert(streams_view(out@) =~= gone.push(
                            (name, start[name].finalized(None)),
                        ));
                        grown(gone, streams_view(out@), (name, start[name].finalized(None)));
                    }
                },
                None => {
                    assert(before.contains_key(name));
                    assert(false);
                },
            }
            i = i + 1;
        }
        proof {
            assert(names.take(names.len() as int) =~= names);
            assert forall|k: Seq<char>| start.contains_key(k) == names.contains(k) by {
                assert(names.to_set().contains(k) == start.dom().contains(k));
            }
        }
        self.sessions.clear();
        assert(self@.sessions =~= Map::<Seq<char>, SessionV>::empty());
        out
    }

    /// The consumer of the stream `progress_token` gives up: the stream is taken out, and is
    /// over with an abort unless it was over before.
    pub fn consumer_abort(&mut self, progress_token: &str, reason: Option<String>) -> (r: Option<
        EndedStream,
    >)
        ensures
            final(self)@ == (RegistryV {
                sessions: old(self)@.sessions.remove(progress_token@),
                ..old(self)@
            }),
            opt_ended(r) == (if old(self)@.sessions.contains_key(progress_token@) {
                Some(
                    (
                        old(self)@.sessions[progress_token@].finalized(
                            Some(
                                StreamErrorV::Abort {
                                    token: progress_token@,
                                    reason: opt_text(reason),
                                },
                            ),
                        ),
                        EndV::Aborted(opt_text(reason)),
                    ),
                )
            } else {
                None
            }),
    {
        let ghost before = self@.sessions;
        match self.sessions.remove(progress_token) {
            Some(s) => {
                assert(self@.sessions =~= before.remove(progress_token@));
                let mut session = s;
                let copy = clone_opt(&reason);
                session.fail(OpenStreamError::abort(progress_token.to_owned(), copy));
                Some(EndedStream { session, end: StreamEnd::Aborted(reason) })
            },
            None => {
                assert(self@.sessions =~= before.remove(progress_token@));
                None
            },
        }
    }
}

proof fn grown<A>(before: Seq<A>, after: Seq<A>, x: A)
    requires
        after == before.push(x),
    ensures
        forall|y: A| #[trigger] after.contains(y) <==> before.contains(y) || y == x,
        !before.contains(x) && before.no_duplicates() ==> after.no_duplicates(),
{
    assert forall|y: A| #[trigger] after.contains(y) <==> before.contains(y)
        || y == x by {
        if before.contains(y) {
            let j = before.index_of(y);
            assert(after[j] == y);
        }
        assert(after[before.len() as int] == x);
    }
}

/// Whether a notification carries something of the shape of an open-stream frame.
pub open spec fn looks_like_stream_frame(n: NotificationV) -> bool {
    match param(n, "cvm"@) {
        Some(cvm) => text_of(cvm.field("type"@)) == Some(OPEN_STREAM_TYPE@) && text_of(
            cvm.field("frameType"@),
        ) is Some,
        None => false,
    }
}

fn reason_text(e: &OpenStreamError) -> (r: Option<String>)
    ensures
        opt_text(r) == failure_reason(e@),
{
    match e {
        OpenStreamError::Sequence(m) => Some(m.clone()),
        OpenStreamError::Policy(m) => Some(m.clone()),
        OpenStreamError::Abort { token: _, reason } => clone_opt(reason),
    }
}

/// The token, progress and frame of a notification.
pub fn parse_frame(notification: &JsonRpcNotification) -> (r: Result<
    (String, i64, OpenStreamFrame),
    OpenStreamError,
>)
    ensures
        match r {
            Ok((token, progress, frame)) => parsed(notification@) == Ok::<
                (Seq<char>, i64, StreamFrameV),
                StreamErrorV,
            >((token@, progress, frame@)),
            Err(e) => parsed(notification@) == Err::<(Seq<char>, i64, StreamFrameV), StreamErrorV>(
                e@,
            ),
        },
{
    let params = match &notification.params {
        Some(params) => params,
        None => {
            return Err(
                OpenStreamError::Sequence("Open stream frame is missing params".to_owned()),
            );
        },
    };
    let found = match params.get("cvm") {
        Some(cvm) => OpenStreamFrame::from_cvm_value(cvm),
        None => None,
    };
    let frame = match found {
        Some(frame) => frame,
        None => {
            return Err(
                OpenStreamError::Sequence("Notification is not an open-stream frame".to_owned()),
            );
        },
    };
    let token = match params.get("progressToken") {
        Some(v) => match progress_token_string(v) {
            Some(t) => t,
            None => String::new(),
        },
        None => String::new(),
    };
    if token.as_str().is_empty() {
        return Err(
            OpenStreamError::Sequence("Open stream frame is missing progressToken".to_owned()),
        );
    }
    match parse_progress(params.get("progress")) {
        Some(progress) => Ok((token, progress, frame)),
        None => Err(
            OpenStreamError::Sequence(about_text("Invalid progress value", token.as_str())),
        ),
    }
}

/// The progress of a frame, as an integer.
fn parse_progress(value: Option<&Json>) -> (r: Option<i64>)
    ensures
        r == stream_progress_of(opt_json_ref(value)),
{
    match value {
        Some(Json::Number(Number::Unsigned(n))) => if *n <= i64::MAX as u64 {
            Some(*n as i64)
        } else {
            Some(i64::MAX)
        },
        Some(Json::Number(Number::Signed(n))) => Some(*n),
        Some(Json::Number(Number::Fraction(f))) => Some(f.clamped_i64),
        _ => None,
    }
}

} // verus!
