//! How a stream opens, is kept alive, takes its frames and ends, alone and in a registry.

use vstd::prelude::*;

use super::buffer::{map_bytes, seq_bytes, text_bytes};
use super::errors::StreamErrorV;
use super::frame::{stream_frame_of, stream_notification_round_trip, StreamFrameV};
use super::registry::{
    open_refusal, opened, parsed, route, swept, EndV, OpenStreamRegistryPolicy, RegistryV,
};
use super::session::{ItemV, KeepaliveV, OutcomeV, SessionV};
use super::writer::{succ, OpV, StepV, WriterV};
use super::OpenStreamConfig;
use crate::json::JsonV;
use crate::message::NotificationV;
use crate::transport::oversized_transfer::frame::param;
use crate::transport::oversized_transfer::receiver::token_of;

verus! {

/// What one frame of a live stream comes to, by its type: before `start` nothing but `start`, an
/// `accept` and an `abort` is taken, and `start` is taken once. A probe asks for an answer with its
/// own nonce; an abort ends the stream, for its own reason.
pub proof fn frames_are_taken_by_type(s: SessionV, now: u64, progress: i64, frame: StreamFrameV)
    requires
        s.active,
        progress > s.last_progress,
    ensures
        ({
            let (after, r) = s.step(now, progress, frame);
            let refused = r matches Err(e) && e is Sequence;
            &&& after.last_activity == now
            &&& frame is Start ==> (if s.started {
                refused && after.active
            } else {
                r == Ok::<OutcomeV, StreamErrorV>(OutcomeV::Nothing) && after.started
            })
            &&& !s.started && !(frame is Start) ==> !after.started
            &&& !s.started && (frame is Chunk || frame is Close || frame is Ping || frame is Pong)
                ==> refused && after.active && after.queue == s.queue && after.buffered
                == s.buffered
            &&& frame is Accept ==> r == Ok::<OutcomeV, StreamErrorV>(OutcomeV::Nothing)
                && after.active && after.queue == s.queue && after.buffered == s.buffered
            &&& s.started && frame is Ping ==> r == Ok::<OutcomeV, StreamErrorV>(
                OutcomeV::SendPong(frame->Ping_nonce),
            ) && after.active && after.probe_nonce == s.probe_nonce
            &&& s.started && frame is Pong ==> r == Ok::<OutcomeV, StreamErrorV>(OutcomeV::Nothing)
                && (after.probe_nonce is None <==> s.probe_nonce is None || s.probe_nonce == Some(
                frame->Pong_nonce,
            )) && (s.probe_nonce != Some(frame->Pong_nonce) ==> after.probe_deadline
                == s.probe_deadline)
            &&& frame is Abort ==> r == Ok::<OutcomeV, StreamErrorV>(
                OutcomeV::Aborted(frame->Abort_reason),
            ) && !after.active && after.queue == s.queue && after.terminal == Some(
                StreamErrorV::Abort { token: s.token, reason: frame->Abort_reason },
            )
        }),
{
}

/// A chunk of a stream that has started is taken exactly if its index is neither past nor there
/// already and the limits on what is buffered and queued allow it; the chunk that is next goes to
/// the consumer at once, any other waits. A chunk that is refused changes nothing of what is
/// buffered and queued.
pub proof fn chunks_are_taken_within_limits(
    s: SessionV,
    now: u64,
    progress: i64,
    index: u64,
    data: Seq<char>,
)
    requires
        s.active,
        s.started,
        progress > s.last_progress,
        0 <= s.next <= u64::MAX + 1,
        forall|p: u64| #[trigger] s.buffered.contains_key(p) ==> s.next < p,
    ensures
        ({
            let frame = StreamFrameV::Chunk { chunk_index: index, data };
            let (after, r) = s.step(now, progress, frame);
            let fits = s.buffered.len() + s.queue.len() < s.limits.max_buffered_chunks && map_bytes(
                s.buffered,
            ) + seq_bytes(s.queue) + text_bytes(data) <= s.limits.max_buffered_bytes;
            let known = index < s.next || s.buffered.contains_key(index);
            &&& known || !fits ==> (r matches Err(e) && e is Sequence) && after.queue == s.queue
                && after.buffered == s.buffered && after.active
            &&& !known && fits && !s.closed_remotely ==> r == Ok::<OutcomeV, StreamErrorV>(
                OutcomeV::Nothing,
            )
            &&& !known && fits && index == s.next ==> after.queue.len() > s.queue.len()
                && after.queue[s.queue.len() as int] == data && s.queue.is_prefix_of(after.queue)
            &&& !known && fits && index > s.next ==> after.queue == s.queue
                && after.buffered.contains_key(index) && after.buffered[index] == data
        }),
{
    let t = SessionV { last_progress: progress, last_activity: now, ..s };
    let known = index < s.next || s.buffered.contains_key(index);
    if t.chunk_refusal(index, data) is None {
        let stored = SessionV { buffered: t.buffered.insert(index, data), ..t };
        super::session::first_gap_exists(stored.buffered, stored.next);
        let end = crate::transport::oversized_transfer::receiver::frontier(
            stored.buffered,
            stored.next,
        );
        if index == s.next {
            assert(crate::transport::oversized_transfer::receiver::has_chunk(
                stored.buffered,
                s.next,
            ));
            assert(end > s.next);
        } else {
            assert(!crate::transport::oversized_transfer::receiver::has_chunk(
                stored.buffered,
                s.next,
            ));
            if end > s.next {
                assert(crate::transport::oversized_transfer::receiver::has_chunk(
                    stored.buffered,
                    s.next,
                ));
            }
            assert(stored.flushed().queue =~= s.queue);
        }
    }
}

/// A stream that the peer has closed is over as soon as nothing of it is missing, and only then;
/// while something is buffered behind a gap it waits.
pub proof fn closed_stream_ends_when_complete(
    s: SessionV,
    now: u64,
    progress: i64,
    frame: StreamFrameV,
)
    requires
        s.active,
        s.started,
        progress > s.last_progress,
        frame is Chunk || frame is Close,
    ensures
        ({
            let (after, r) = s.step(now, progress, frame);
            &&& frame is Close ==> after.closed_remotely
            &&& frame is Close ==> after.expected_last == frame->Close_last_chunk_index
            &&& r == Ok::<OutcomeV, StreamErrorV>(OutcomeV::Closed) <==> !after.active
            &&& !after.active ==> after.closed_remotely && after.buffered.len() == 0
                && after.terminal is None && (after.expected_last matches Some(last) ==> after.next
                == last + 1)
            &&& after.closed_remotely && after.buffered.len() == 0 && r is Ok ==> !after.active
            &&& frame is Close && after.active && r is Ok ==> after.grace_deadline == Some(
                now + s.limits.close_grace_period_ms,
            )
            &&& frame is Close && after.buffered.len() == 0 && (after.expected_last matches Some(
                last,
            ) && after.next != last + 1) ==> (r matches Err(e) && e is Sequence)
        }),
{
}

/// A live stream that has not been closed is probed exactly once it has been silent for the idle
/// timeout, unless a probe is under way; the probe is given up after its own timeout.
pub proof fn silent_stream_is_probed(s: SessionV, now: u64)
    requires
        s.active,
        !s.closed_remotely,
        s.probe_nonce is None,
    ensures
        ({
            let (after, action) = s.ticked(now);
            let idle = now >= s.last_activity + s.limits.idle_timeout_ms || s.limits.idle_timeout_ms
                == 0;
            &&& action is SendPing <==> idle
            &&& !idle ==> after == s && action is Nothing
            &&& action matches KeepaliveV::SendPing(nonce) ==> after.probe_nonce == Some(nonce)
                && after.probe_deadline == Some(now + s.limits.probe_timeout_ms) && after.active
                && nonce == s.token + ":"@ + crate::text::decimal(after.nonces as nat)
                && after.nonces == succ(s.nonces) && after.queue == s.queue && after.buffered
                == s.buffered
        }),
{
    assert(s.token + ":"@ + crate::text::decimal(s.next_nonce() as nat)
        =~= super::session::nonce_text(s.token, s.next_nonce()));
}

/// A stream that was closed with chunks missing is given up exactly once the grace period has
/// passed since; until then it is left alone.
pub proof fn missing_chunks_are_waited_for(
    s: SessionV,
    now: u64,
    progress: i64,
    last: Option<u64>,
    later: u64,
)
    requires
        s.active,
        s.started,
        progress > s.last_progress,
        s.probe_nonce is None,
        s.step(now, progress, StreamFrameV::Close { last_chunk_index: last }).0.buffered.len() > 0,
    ensures
        ({
            let closed = s.step(now, progress, StreamFrameV::Close { last_chunk_index: last }).0;
            let (after, action) = closed.ticked(later);
            &&& later < now + s.limits.close_grace_period_ms ==> after == closed
                && action is Nothing
            &&& later >= now + s.limits.close_grace_period_ms ==> action is Abort && !after.active
                && (after.terminal matches Some(e) && e is Abort)
        }),
{
}

/// The consumer's abort ends a live stream for the consumer's reason, and tells the peer that
/// reason if it can.
pub proof fn consumer_abort_tells_the_peer(s: SessionV, reason: Option<Seq<char>>)
    requires
        s.active,
    ensures
        ({
            let (after, out) = s.aborted(reason);
            &&& !after.active
            &&& after.terminal == Some(StreamErrorV::Abort { token: s.token, reason })
            &&& after.queue == s.queue
            &&& out is Some <==> s.can_publish
            &&& out matches Some(n) ==> stream_frame_of(n) == Some(StreamFrameV::Abort { reason })
                && param(n, "progressToken"@) == Some(JsonV::Text(s.token)) && after.outbound
                == succ(s.outbound) && param(n, "progress"@) == Some(
                JsonV::Number(crate::json::NumberV::Unsigned(after.outbound)),
            )
            &&& s.queue.len() == 0 ==> after.polled().1 == ItemV::Failed(
                StreamErrorV::Abort { token: s.token, reason },
            )
        }),
{
    stream_notification_round_trip(
        StreamFrameV::Abort { reason },
        s.token,
        succ(s.outbound),
        None,
    );
}

/// A `start` frame opens a stream where there is room for one and its token is free: from then on
/// it is registered, live and empty, within the limits that are configured. Otherwise nothing
/// changes but the stream that has the token.
pub proof fn start_opens_a_stream(r: RegistryV, now: u64, n: NotificationV)
    requires
        parsed(n) matches Ok((token, progress, frame)) && frame is Start && progress >= 0,
        !r.sessions.contains_key(token_of(n)),
    ensures
        ({
            let (after, x) = route(r, now, n);
            let token = token_of(n);
            let room = r.sessions.len() < r.policy.max_concurrent_streams;
            &&& x.ended is None
            &&& room <==> x.result is Ok
            &&& !room ==> after == r && (x.result matches Err(e) && e is Policy)
            &&& room ==> {
                let s = after.sessions[token];
                &&& after.sessions == r.sessions.insert(token, s)
                &&& x.result == Ok::<OutcomeV, StreamErrorV>(OutcomeV::Nothing)
                &&& s.token == token && s.active && s.started && s.queue.len() == 0 && s.next == 0
                &&& s.buffered == Map::<u64, Seq<char>>::empty()
                &&& s.last_activity == now && !s.can_publish && s.nonces == 0 && s.outbound == 0
                &&& s.limits.max_buffered_chunks == r.policy.max_buffered_chunks_per_stream
                &&& s.limits.max_buffered_bytes == r.policy.max_buffered_bytes_per_stream
                &&& s.limits.idle_timeout_ms == r.policy.idle_timeout_ms
                &&& s.limits.probe_timeout_ms == r.policy.probe_timeout_ms
                &&& s.limits.close_grace_period_ms == r.policy.close_grace_period_ms
            }
        }),
{
    let token = token_of(n);
    if open_refusal(r, token) is None {
        let o = opened(r, token, false, now);
        let after = route(r, now, n).0;
        assert(o.sessions.insert(token, after.sessions[token]) =~= r.sessions.insert(
            token,
            after.sessions[token],
        ));
    }
}

/// A frame of a registered stream goes to it, and what becomes of the stream is told: one that
/// closes, is aborted or fails is taken out with how it ended, and keeps what is queued; a failure
/// is what its consumer is then told. Any other stays.
pub proof fn registered_stream_takes_its_frames(r: RegistryV, now: u64, n: NotificationV)
    requires
        parsed(n) is Ok,
        r.sessions.contains_key(token_of(n)),
        r.sessions[token_of(n)].active,
    ensures
        ({
            let (after, x) = route(r, now, n);
            let token = token_of(n);
            let (progress, frame) = (parsed(n)->Ok_0.1, parsed(n)->Ok_0.2);
            let (s, result) = r.sessions[token].step(now, progress, frame);
            &&& x.result == result
            &&& result is Ok && !(result->Ok_0 is Closed) && !(result->Ok_0 is Aborted)
                ==> x.ended is None && after.sessions == r.sessions.insert(token, s)
            &&& x.ended is Some ==> after.sessions == r.sessions.remove(token)
            &&& result == Ok::<OutcomeV, StreamErrorV>(OutcomeV::Closed) ==> (x.ended matches Some(
                (over, end),
            ) && over == s && end == EndV::Closed)
            &&& result matches Ok(OutcomeV::Aborted(reason)) ==> (x.ended matches Some((over, end))
                && over == s && end == EndV::Aborted(reason))
            &&& result matches Err(e) ==> (x.ended matches Some((over, end)) && !over.active
                && over.queue == s.queue && (s.active ==> over.terminal == Some(e)) && (e
                matches StreamErrorV::Sequence(message) ==> end == EndV::Aborted(Some(message))))
        }),
{
}

/// A tick ticks every stream, and takes out those that it gives up.
pub proof fn tick_takes_out_what_it_gives_up(
    sessions: Map<Seq<char>, SessionV>,
    now: u64,
    token: Seq<char>,
)
    ensures
        swept(sessions, now).contains_key(token) <==> sessions.contains_key(token) && !(
        sessions[token].ticked(now).1 is Abort),
        swept(sessions, now).contains_key(token) ==> swept(sessions, now)[token]
            == sessions[token].ticked(now).0,
{
}

/// The limits of a registry are those that are configured.
pub proof fn limits_are_configured(config: OpenStreamConfig)
    ensures
        ({
            let p: OpenStreamRegistryPolicy = vstd::std_specs::convert::FromSpec::from_spec(&config);
            &&& p.max_concurrent_streams == config.max_concurrent_streams
            &&& p.max_buffered_chunks_per_stream == config.max_buffered_chunks_per_stream
            &&& p.max_buffered_bytes_per_stream == config.max_buffered_bytes_per_stream
            &&& p.idle_timeout_ms == config.idle_timeout_ms
            &&& p.probe_timeout_ms == config.probe_timeout_ms
            &&& p.close_grace_period_ms == config.close_grace_period_ms
        }),
{
}

/// What a writer publishes for each operation of a live stream: a probe with a nonce of its own, an
/// answer with the peer's nonce; neither starts or ends the stream, or counts as a chunk.
pub proof fn writer_probes_and_answers(w: WriterV, nonce: Seq<char>)
    requires
        w.active,
    ensures
        ({
            let (probing, ping) = w.step(OpV::Ping);
            let (answered, pong) = w.step(OpV::Pong(nonce));
            &&& ping matches StepV::Publish(n) && stream_frame_of(n) == Some(
                StreamFrameV::Ping {
                    nonce: w.token + ":"@ + crate::text::decimal(probing.nonces as nat),
                },
            )
            &&& probing.nonces == succ(w.nonces)
            &&& pong matches StepV::Publish(n) && stream_frame_of(n) == Some(
                StreamFrameV::Pong { nonce },
            )
            &&& probing.active && answered.active
            &&& probing.started == w.started && answered.started == w.started
            &&& probing.chunk_index == w.chunk_index && answered.chunk_index == w.chunk_index
            &&& probing.progress == succ(w.progress) && answered.progress == succ(w.progress)
            &&& answered.nonces == w.nonces
        }),
{
    let own = super::session::nonce_text(w.token, succ(w.nonces));
    assert(w.token + ":"@ + crate::text::decimal(succ(w.nonces) as nat) =~= own);
    stream_notification_round_trip(
        StreamFrameV::Ping { nonce: own },
        w.token,
        succ(w.progress),
        None,
    );
    stream_notification_round_trip(StreamFrameV::Pong { nonce }, w.token, succ(w.progress), None);
}

/// A notification that carries a frame of a stream looks like one and not like a frame of a
/// transfer, and the other way round; so each reaches its own kind of reader.
pub proof fn frames_look_like_their_kind(
    f: StreamFrameV,
    g: crate::transport::oversized_transfer::frame::FrameV,
    token: Seq<char>,
    progress: u64,
)
    ensures
        ({
            let a = crate::transport::oversized_transfer::frame::progress_notification(
                token,
                progress,
                None,
                f.cvm(),
            );
            let b = crate::transport::oversized_transfer::frame::progress_notification(
                token,
                progress,
                None,
                g.cvm(),
            );
            &&& super::registry::looks_like_stream_frame(a)
            &&& !crate::transport::oversized_transfer::receiver::looks_oversized(a)
            &&& crate::transport::oversized_transfer::receiver::looks_oversized(b)
            &&& !super::registry::looks_like_stream_frame(b)
            &&& a.method == "notifications/progress"@ && b.method == "notifications/progress"@
        }),
{
    crate::transport::oversized_transfer::frame::names_distinct();
    reveal_with_fuel(crate::json::member_from, 6);
    reveal_strlit("open-stream");
    reveal_strlit("oversized-transfer");
    assert(super::constants::OPEN_STREAM_TYPE@.len() == 11);
    assert(crate::transport::oversized_transfer::constants::OVERSIZED_TRANSFER_TYPE@.len() == 18);
    stream_notification_round_trip(f, token, progress, None);
    crate::transport::oversized_transfer::frame::notification_round_trip(g, token, progress, None);
}

/// What is refused of a stream is refused by its name.
pub proof fn refusals_name_their_stream(s: SessionV, now: u64, progress: i64, frame: StreamFrameV)
    ensures
        s.step(now, progress, frame).1 matches Err(e) ==> (e matches StreamErrorV::Sequence(message)
            && message.len() >= s.token.len() && message.skip(message.len() - s.token.len())
            == s.token || s.active && s.started && (frame is Close || frame is Chunk)),
{
    if let Err(StreamErrorV::Sequence(message)) = s.step(now, progress, frame).1 {
        let head = message.take(message.len() - s.token.len());
        let a = "Received frame for inactive stream "@;
        let b = "Non-increasing progress for stream "@;
        let c = "Duplicate start frame for stream "@;
        let d = "Received non-start frame before start for "@;
        assert((a + s.token).skip(a.len() as int) =~= s.token);
        assert((b + s.token).skip(b.len() as int) =~= s.token);
        assert((c + s.token).skip(c.len() as int) =~= s.token);
        assert((d + s.token).skip(d.len() as int) =~= s.token);
    }
}

/// The progress of a frame of a stream is any whole number, as far as it can be held.
pub proof fn stream_progress_is_a_number(n: u64, m: i64, t: Seq<char>)
    ensures
        n <= i64::MAX ==> super::registry::stream_progress_of(
            Some(JsonV::Number(crate::json::NumberV::Unsigned(n))),
        ) == Some(n as i64),
        super::registry::stream_progress_of(Some(JsonV::Number(crate::json::NumberV::Signed(m))))
            == Some(m),
        super::registry::stream_progress_of(Some(JsonV::Text(t))) is None,
        super::registry::stream_progress_of(None) is None,
{
}

/// A stream that is opened can publish exactly if it is to, and takes its first frame from then on.
pub proof fn opened_stream_is_new(r: RegistryV, token: Seq<char>, can_publish: bool, now: u64)
    ensures
        ({
            let after = opened(r, token, can_publish, now);
            &&& after.sessions.contains_key(token)
            &&& after.sessions[token].can_publish == can_publish
            &&& after.sessions[token].active && !after.sessions[token].started
            &&& after.sessions[token].token == token
            &&& after.sessions[token].last_activity == now
            &&& after.sessions[token].polled().1 is Pending
            &&& after.sessions == r.sessions.insert(token, after.sessions[token])
            &&& after.policy == r.policy
        }),
{
}

} // verus!
