//! Laws of open streams: what a reader gets of what a writer wrote, and what every operation
//! keeps.

use vstd::prelude::*;

use super::buffer::{
    map_bytes, map_bytes_insert, map_bytes_remove, seq_bytes, seq_bytes_append, text_bytes,
};
use super::errors::StreamErrorV;
use super::frame::{stream_frame_of, stream_notification_round_trip, StreamFrameV};
use super::registry::{open_refusal, opened, parsed, route, swept, EndV, RegistryV, RoutedV};
use super::session::{
    first_gap_exists, nonce_text, outside, ItemV, KeepaliveV, OutcomeV, SessionV, StreamLimits,
};
use super::writer::{succ, OpV, StepV, WriterV};
use crate::message::NotificationV;
use crate::text::{decimal, decimal_injective};
use crate::transport::oversized_transfer::frame::{notification_token, progress_notification};
use crate::transport::oversized_transfer::receiver::{
    frontier, frontier_unique, has_chunk, is_frontier, run_of, token_of,
};

verus! {

/// Whether a stream has handed out `delivered`, and holds, the beginning of `content`: what was
/// delivered and what is queued are the first chunks in order, and what is buffered are later
/// chunks under their own index.
pub open spec fn follows(
    s: SessionV,
    delivered: Seq<Seq<char>>,
    content: spec_fn(int) -> Seq<char>,
) -> bool {
    &&& 0 <= s.next <= u64::MAX + 1
    &&& delivered + s.queue == Seq::new(s.next as nat, content)
    &&& forall|p: u64| #[trigger]
        s.buffered.contains_key(p) ==> s.next < p && s.buffered[p] == content(p as int)
}

proof fn flush_follows(
    s: SessionV,
    delivered: Seq<Seq<char>>,
    content: spec_fn(int) -> Seq<char>,
)
    requires
        0 <= s.next <= u64::MAX + 1,
        delivered + s.queue == Seq::new(s.next as nat, content),
        forall|p: u64| #[trigger]
            s.buffered.contains_key(p) ==> s.next <= p && s.buffered[p] == content(p as int),
    ensures
        follows(s.flushed(), delivered, content),
        s.flushed().next >= s.next,
{
    let end = frontier(s.buffered, s.next);
    first_gap_exists(s.buffered, s.next);
    if end > u64::MAX + 1 {
        assert(has_chunk(s.buffered, u64::MAX + 1));
    }
    let run = run_of(s.buffered, s.next, (end - s.next) as nat);
    assert forall|i: int| 0 <= i < run.len() implies run[i] == content(s.next + i) by {
        assert(has_chunk(s.buffered, s.next + i));
    }
    assert(delivered + (s.queue + run) =~= (delivered + s.queue) + run);
    assert((delivered + s.queue) + run =~= Seq::new(end as nat, content));
    assert forall|p: u64| #[trigger] s.flushed().buffered.contains_key(p) implies end < p
        && s.flushed().buffered[p] == content(p as int) by {
        assert(s.buffered.contains_key(p));
        if p == end {
            assert(has_chunk(s.buffered, end));
        }
    }
}

/// Chunks come out in the order of their indices, each once and none changed, whatever the order
/// in which they came in: a stream that follows `content` still does after every frame whose
/// chunk, if it has one, is the chunk of `content` with that index.
pub proof fn reader_keeps_order(
    s: SessionV,
    delivered: Seq<Seq<char>>,
    content: spec_fn(int) -> Seq<char>,
    now: u64,
    progress: i64,
    frame: StreamFrameV,
)
    requires
        follows(s, delivered, content),
        frame matches StreamFrameV::Chunk { chunk_index, data } ==> data == content(
            chunk_index as int,
        ),
    ensures
        follows(s.step(now, progress, frame).0, delivered, content),
{
    if s.active && progress > s.last_progress && s.started {
        let t = SessionV { last_progress: progress, last_activity: now, ..s };
        match frame {
            StreamFrameV::Chunk { chunk_index, data } => {
                if t.chunk_refusal(chunk_index, data) is None {
                    let stored = SessionV { buffered: t.buffered.insert(chunk_index, data), ..t };
                    flush_follows(stored, delivered, content);
                }
            },
            StreamFrameV::Close { last_chunk_index } => {
                let closed = SessionV {
                    closed_remotely: true,
                    expected_last: last_chunk_index,
                    ..t
                };
                flush_follows(closed, delivered, content);
            },
            _ => {},
        }
    }
}

/// The consumer gets the chunks in that order: taking an item hands out the next chunk of
/// `content`, and nothing else is handed out as a chunk.
pub proof fn consumer_gets_content_in_order(
    s: SessionV,
    delivered: Seq<Seq<char>>,
    content: spec_fn(int) -> Seq<char>,
)
    requires
        follows(s, delivered, content),
    ensures
        match s.polled().1 {
            ItemV::Chunk(text) => text == content(delivered.len() as int) && follows(
                s.polled().0,
                delivered.push(text),
                content,
            ),
            _ => follows(s.polled().0, delivered, content) && s.queue.len() == 0,
        },
{
    if s.queue.len() > 0 {
        let all = Seq::new(s.next as nat, content);
        assert((delivered + s.queue).len() == all.len());
        assert((delivered + s.queue)[delivered.len() as int] == s.queue[0]);
        assert(all[delivered.len() as int] == content(delivered.len() as int));
        assert(delivered.push(s.queue[0]) + s.queue.drop_first() =~= delivered + s.queue);
    }
}

/// A new stream has delivered nothing of any content, and a tick, a failure or an abort changes
/// nothing of what has been or will be delivered.
pub proof fn other_operations_keep_order(
    s: SessionV,
    delivered: Seq<Seq<char>>,
    content: spec_fn(int) -> Seq<char>,
    now: u64,
    error: Option<StreamErrorV>,
    reason: Option<Seq<char>>,
)
    ensures
        follows(
            SessionV::fresh(s.token, s.limits, s.can_publish, now),
            Seq::empty(),
            content,
        ),
        follows(s, delivered, content) ==> follows(s.ticked(now).0, delivered, content),
        follows(s, delivered, content) ==> follows(s.finalized(error), delivered, content),
        follows(s, delivered, content) ==> follows(s.aborted(reason).0, delivered, content),
{
    assert(Seq::<Seq<char>>::empty() + Seq::<Seq<char>>::empty() =~= Seq::new(0, content));
}

/// A stream that closes is complete: where the close declared a last index, exactly the chunks up
/// to it have been handed out or are queued, and nothing is left buffered.
pub proof fn closed_stream_is_complete(
    s: SessionV,
    delivered: Seq<Seq<char>>,
    content: spec_fn(int) -> Seq<char>,
    now: u64,
    progress: i64,
    frame: StreamFrameV,
)
    requires
        follows(s, delivered, content),
        frame matches StreamFrameV::Chunk { chunk_index, data } ==> data == content(
            chunk_index as int,
        ),
        s.step(now, progress, frame).1 == Ok::<OutcomeV, StreamErrorV>(OutcomeV::Closed),
    ensures
        ({
            let after = s.step(now, progress, frame).0;
            &&& !after.active
            &&& after.terminal is None
            &&& after.buffered.len() == 0
            &&& after.expected_last matches Some(last) ==> delivered + after.queue == Seq::new(
                (last + 1) as nat,
                content,
            )
        }),
{
    reader_keeps_order(s, delivered, content, now, progress, frame);
}

/// Whether a stream is within its limits.
pub open spec fn within_budget(s: SessionV) -> bool {
    &&& 0 <= s.next <= u64::MAX + 1
    &&& s.buffered.dom().finite()
    &&& s.buffered.len() + s.queue.len() <= s.limits.max_buffered_chunks
    &&& map_bytes(s.buffered) + seq_bytes(s.queue) <= s.limits.max_buffered_bytes
}

proof fn run_moves_budget(chunks: Map<u64, Seq<char>>, first: int, n: nat)
    requires
        chunks.dom().finite(),
        forall|p: int| first <= p < first + n ==> has_chunk(chunks, p),
    ensures
        outside(chunks, first, first + n).dom().finite(),
        outside(chunks, first, first + n).len() + n == chunks.len(),
        map_bytes(outside(chunks, first, first + n)) + seq_bytes(run_of(chunks, first, n))
            == map_bytes(chunks),
    decreases n,
{
    if n == 0 {
        assert(outside(chunks, first, first) =~= chunks);
        assert(run_of(chunks, first, 0) =~= Seq::<Seq<char>>::empty());
    } else {
        let m = (n - 1) as nat;
        run_moves_budget(chunks, first, m);
        let last = first + m;
        assert(has_chunk(chunks, last));
        let before = outside(chunks, first, first + m);
        let after = outside(chunks, first, first + n);
        assert(before.contains_key(last as u64));
        assert(after =~= before.remove(last as u64));
        assert(after.dom() =~= before.dom().remove(last as u64));
        map_bytes_remove(before, last as u64);
        assert(run_of(chunks, first, n).drop_last() =~= run_of(chunks, first, m));
        assert(run_of(chunks, first, n).last() == chunks[last as u64]);
    }
}

proof fn flush_keeps_budget(s: SessionV)
    requires
        within_budget(s),
    ensures
        within_budget(s.flushed()),
        s.flushed().limits == s.limits,
{
    let end = frontier(s.buffered, s.next);
    first_gap_exists(s.buffered, s.next);
    if end > u64::MAX + 1 {
        assert(has_chunk(s.buffered, u64::MAX + 1));
    }
    let n = (end - s.next) as nat;
    run_moves_budget(s.buffered, s.next, n);
    seq_bytes_append(s.queue, run_of(s.buffered, s.next, n));
}

/// No frame makes a stream hold more chunks or bytes than it may.
pub proof fn reader_stays_within_budget(
    s: SessionV,
    now: u64,
    progress: i64,
    frame: StreamFrameV,
)
    requires
        within_budget(s),
    ensures
        within_budget(s.step(now, progress, frame).0),
        s.step(now, progress, frame).0.limits == s.limits,
{
    if s.active && progress > s.last_progress && s.started {
        let t = SessionV { last_progress: progress, last_activity: now, ..s };
        match frame {
            StreamFrameV::Chunk { chunk_index, data } => {
                if t.chunk_refusal(chunk_index, data) is None {
                    let stored = SessionV { buffered: t.buffered.insert(chunk_index, data), ..t };
                    map_bytes_insert(t.buffered, chunk_index, data);
                    assert(stored.buffered.dom() =~= t.buffered.dom().insert(chunk_index));
                    flush_keeps_budget(stored);
                }
            },
            StreamFrameV::Close { last_chunk_index } => {
                let closed = SessionV {
                    closed_remotely: true,
                    expected_last: last_chunk_index,
                    ..t
                };
                flush_keeps_budget(closed);
            },
            _ => {},
        }
    }
}

/// Taking an item out never makes a stream hold more.
pub proof fn polling_stays_within_budget(s: SessionV)
    requires
        within_budget(s),
    ensures
        within_budget(s.polled().0),
{
    if s.queue.len() > 0 {
        assert(s.queue =~= seq![s.queue[0]] + s.queue.drop_first());
        seq_bytes_append(seq![s.queue[0]], s.queue.drop_first());
    }
}

/// Progress only ever increases: a live stream takes note of the progress of every frame, of
/// whatever type, that is greater than all before it, and refuses any other frame without any
/// effect.
pub proof fn progress_increases(s: SessionV, now: u64, progress: i64, frame: StreamFrameV)
    ensures
        s.active && progress > s.last_progress ==> s.step(now, progress, frame).0.last_progress
            == progress,
        s.step(now, progress, frame).0.last_progress >= s.last_progress,
        s.step(now, progress, frame).1 is Ok ==> s.step(now, progress, frame).0.last_progress
            == progress && progress > s.last_progress,
        progress <= s.last_progress ==> s.step(now, progress, frame).0 == s && (s.step(
            now,
            progress,
            frame,
        ).1 matches Err(e) && e is Sequence),
{
}

/// A new stream takes a first frame of any progress from zero on.
pub proof fn first_progress_is_free(
    token: Seq<char>,
    limits: StreamLimits,
    can_publish: bool,
    opened_at: u64,
    now: u64,
    progress: i64,
    content_type: Option<Seq<char>>,
)
    requires
        progress >= 0,
    ensures
        ({
            let s = SessionV::fresh(token, limits, can_publish, opened_at);
            let (after, r) = s.step(now, progress, StreamFrameV::Start { content_type });
            r == Ok::<OutcomeV, StreamErrorV>(OutcomeV::Nothing) && after.started
                && after.last_progress == progress
        }),
{
}

/// A stream after some frames, each with the time of its arrival and its progress.
pub open spec fn stepped(s: SessionV, frames: Seq<(u64, i64, StreamFrameV)>) -> SessionV
    decreases frames.len(),
{
    if frames.len() == 0 {
        s
    } else {
        let (now, progress, frame) = frames.last();
        stepped(s, frames.drop_last()).step(now, progress, frame).0
    }
}

/// Whether a stream takes in the frame at a position, after those before it.
pub open spec fn accepted(s: SessionV, frames: Seq<(u64, i64, StreamFrameV)>, i: int) -> bool {
    stepped(s, frames.take(i)).step(frames[i].0, frames[i].1, frames[i].2).1 is Ok
}

/// The progress of the frames that a stream takes in strictly increases, over all types of
/// frames and whatever is refused between them.
pub proof fn accepted_progress_increases(
    s: SessionV,
    frames: Seq<(u64, i64, StreamFrameV)>,
    i: int,
    j: int,
)
    requires
        0 <= i < j < frames.len(),
        accepted(s, frames, i),
        accepted(s, frames, j),
    ensures
        s.last_progress < frames[i].1 < frames[j].1,
{
    progress_never_falls(s, frames, 0, i);
    progress_never_falls(s, frames, i + 1, j);
    assert(frames.take(0) =~= Seq::empty());
    assert(frames.take(i + 1).drop_last() =~= frames.take(i));
}

proof fn progress_never_falls(
    s: SessionV,
    frames: Seq<(u64, i64, StreamFrameV)>,
    i: int,
    j: int,
)
    requires
        0 <= i <= j <= frames.len(),
    ensures
        stepped(s, frames.take(i)).last_progress <= stepped(s, frames.take(j)).last_progress,
    decreases j - i,
{
    if i < j {
        progress_never_falls(s, frames, i, j - 1);
        assert(frames.take(j).drop_last() =~= frames.take(j - 1));
    }
}

/// The first ending of a stream decides what the consumer is told: it stops the stream and its
/// deadlines and keeps the chunks that are queued, and a later ending changes nothing.
pub proof fn first_ending_decides(
    s: SessionV,
    first: Option<StreamErrorV>,
    later: Option<StreamErrorV>,
)
    requires
        s.active,
    ensures
        ({
            let over = s.finalized(first);
            &&& !over.active
            &&& over.terminal == first
            &&& over.probe_nonce is None
            &&& over.probe_deadline is None
            &&& over.grace_deadline is None
            &&& over.queue == s.queue
            &&& over.buffered == s.buffered
            &&& over.finalized(later) == over
        }),
{
}

/// A stream that is over stays over: frames are refused without any effect, ticks and further
/// endings do nothing.
pub proof fn over_is_over(
    s: SessionV,
    now: u64,
    progress: i64,
    frame: StreamFrameV,
    error: Option<StreamErrorV>,
    reason: Option<Seq<char>>,
)
    requires
        !s.active,
    ensures
        s.step(now, progress, frame).0 == s,
        s.step(now, progress, frame).1 is Err,
        s.ticked(now) == (s, KeepaliveV::Nothing),
        s.finalized(error) == s,
        s.aborted(reason) == (s, None::<NotificationV>),
        !s.polled().0.active,
{
}

/// The failure that ends a stream reaches the consumer once, after the chunks that are still
/// queued; from then on the stream is just over.
pub proof fn failure_is_reported_once(s: SessionV, error: StreamErrorV)
    requires
        s.active,
        s.queue.len() == 0,
    ensures
        ({
            let (once, first) = s.finalized(Some(error)).polled();
            let (twice, second) = once.polled();
            &&& first == ItemV::Failed(error)
            &&& second == ItemV::Ended
            &&& twice == once
        }),
        s.finalized(None).polled().1 == ItemV::Ended,
        s.polled().1 == ItemV::Pending,
{
}

/// An idle stream is probed once: until the answer or another end there is no second probe, the
/// matching answer clears the probe, and a probe that stays unanswered aborts the stream.
pub proof fn probe_cycle(s: SessionV, now: u64, later: u64, progress: i64)
    requires
        s.active,
        s.started,
        s.ticked(now).1 is SendPing,
        progress > s.last_progress,
    ensures
        ({
            let (probing, ping) = s.ticked(now);
            let nonce = ping->SendPing_0;
            &&& probing.probe_nonce == Some(nonce)
            &&& later < now + s.limits.probe_timeout_ms ==> probing.ticked(later)
                == (probing, KeepaliveV::Nothing)
            &&& later >= now + s.limits.probe_timeout_ms ==> probing.ticked(later).1
                == KeepaliveV::Abort("Probe timeout"@) && !probing.ticked(later).0.active
            &&& probing.step(now, progress, StreamFrameV::Pong { nonce }).0.probe_nonce is None
        }),
{
}

/// Nonces with different numbers differ.
pub proof fn nonces_differ(token: Seq<char>, a: u64, b: u64)
    requires
        a != b,
    ensures
        nonce_text(token, a) != nonce_text(token, b),
{
    decimal_injective(a as nat, b as nat);
    let head = token + ":"@;
    assert(nonce_text(token, a).skip(head.len() as int) =~= decimal(a as nat));
    assert(nonce_text(token, b).skip(head.len() as int) =~= decimal(b as nat));
}

/// What one operation publishes when every publication succeeds, and the writer afterwards.
pub open spec fn perform(w: WriterV, op: OpV) -> (WriterV, Seq<NotificationV>) {
    let (w1, s1) = w.step(op);
    match s1 {
        StepV::PublishStart(start) => {
            let (w2, s2) = WriterV { started: true, ..w1 }.step(op);
            match s2 {
                StepV::Publish(n) => (w2.completed(op, true).0, seq![start, n]),
                _ => (w2, seq![start]),
            }
        },
        StepV::Publish(n) => (w1.completed(op, true).0, seq![n]),
        StepV::Finished => (w1, Seq::empty()),
    }
}

/// What several operations publish, one after the other.
pub open spec fn perform_all(w: WriterV, ops: Seq<OpV>) -> (WriterV, Seq<NotificationV>)
    decreases ops.len(),
{
    if ops.len() == 0 {
        (w, Seq::empty())
    } else {
        let (before, out) = perform_all(w, ops.drop_last());
        let (after, more) = perform(before, ops.last());
        (after, out + more)
    }
}

/// The operations that write `data` and close the stream.
pub open spec fn writes(data: Seq<Seq<char>>) -> Seq<OpV> {
    Seq::new(data.len(), |i: int| OpV::Write(data[i]))
}

/// A frame of the stream `token`.
pub open spec fn numbered(token: Seq<char>, progress: int, frame: StreamFrameV) -> NotificationV {
    progress_notification(token, progress as u64, None, frame.cvm())
}

/// Whether a notification is a frame of the stream `token` with this progress.
pub open spec fn has_progress(n: NotificationV, token: Seq<char>, progress: int) -> bool {
    exists|f: StreamFrameV| n == #[trigger] numbered(token, progress, f)
}

/// The `start` frame and the chunks of a stream.
pub open spec fn open_frames(
    token: Seq<char>,
    content_type: Option<Seq<char>>,
    data: Seq<Seq<char>>,
) -> Seq<NotificationV> {
    seq![numbered(token, 1, StreamFrameV::Start { content_type })] + Seq::new(
        data.len(),
        |i: int|
            numbered(
                token,
                i + 2,
                StreamFrameV::Chunk { chunk_index: i as u64, data: data[i] },
            ),
    )
}

/// The `close` frame of a stream of `n` chunks.
pub open spec fn close_frame(n: nat) -> StreamFrameV {
    StreamFrameV::Close {
        last_chunk_index: if n > 0 {
            Some((n - 1) as u64)
        } else {
            None
        },
    }
}

/// Every frame of a stream: `start`, the chunks numbered from zero, and `close` with the last
/// number, with progress values that count up from one.
pub open spec fn stream_frames(
    token: Seq<char>,
    content_type: Option<Seq<char>>,
    data: Seq<Seq<char>>,
) -> Seq<NotificationV> {
    open_frames(token, content_type, data) + seq![
        numbered(token, data.len() as int + 2, close_frame(data.len())),
    ]
}

/// The chunks go out in the order in which they are written: a new writer publishes the `start`
/// frame with the first progress value, and then each chunk once, under the index that counts the
/// chunks, with the progress value that counts the frames.
pub proof fn writes_go_out_in_order(
    token: Seq<char>,
    content_type: Option<Seq<char>>,
    data: Seq<Seq<char>>,
)
    requires
        data.len() > 0,
        data.len() < u64::MAX - 2,
    ensures
        perform_all(WriterV::fresh(token, content_type), writes(data)) == (
            WriterV {
                progress: (data.len() + 1) as u64,
                chunk_index: data.len() as u64,
                started: true,
                ..WriterV::fresh(token, content_type)
            },
            open_frames(token, content_type, data),
        ),
    decreases data.len(),
{
    let fresh = WriterV::fresh(token, content_type);
    let n = data.len();
    let rest = data.drop_last();
    assert(writes(data).drop_last() =~= writes(rest));
    assert(writes(data).last() == OpV::Write(data.last()));
    if n == 1 {
        assert(writes(rest) =~= Seq::<OpV>::empty());
        assert(perform_all(fresh, writes(rest)) == (fresh, Seq::<NotificationV>::empty()));
        let p = perform(fresh, OpV::Write(data.last()));
        assert(Seq::<NotificationV>::empty() + p.1 =~= open_frames(token, content_type, data));
    } else {
        writes_go_out_in_order(token, content_type, rest);
        let before = perform_all(fresh, writes(rest));
        let p = perform(before.0, OpV::Write(data.last()));
        assert(p.1 =~= seq![
            numbered(
                token,
                n as int + 1,
                StreamFrameV::Chunk { chunk_index: (n - 1) as u64, data: data.last() },
            ),
        ]);
        assert(before.1 + p.1 =~= open_frames(token, content_type, data));
    }
}

/// A writer that writes `data` and closes publishes the `start` frame, each chunk under its own
/// index and the `close` frame with the last index, with strictly increasing progress.
pub proof fn writer_publishes_stream(
    token: Seq<char>,
    content_type: Option<Seq<char>>,
    data: Seq<Seq<char>>,
)
    requires
        data.len() < u64::MAX - 2,
    ensures
        perform_all(
            WriterV::fresh(token, content_type),
            writes(data).push(OpV::Close),
        ).1 == stream_frames(token, content_type, data),
{
    let fresh = WriterV::fresh(token, content_type);
    let ops = writes(data).push(OpV::Close);
    assert(ops.drop_last() =~= writes(data));
    if data.len() == 0 {
        assert(writes(data) =~= Seq::<OpV>::empty());
        let p = perform(fresh, OpV::Close);
        assert(Seq::<NotificationV>::empty() + p.1 =~= stream_frames(token, content_type, data));
    } else {
        writes_go_out_in_order(token, content_type, data);
        let before = perform_all(fresh, writes(data));
        let p = perform(before.0, OpV::Close);
        assert(before.1 + p.1 =~= stream_frames(token, content_type, data));
    }
}

/// A `start` frame that could not be published goes out again with the next operation that needs
/// it, with the next progress value.
pub proof fn unpublished_start_is_retried(w: WriterV, op: OpV, next: OpV)
    requires
        w.owes_start(op),
        w.owes_start(next),
    ensures
        ({
            let start = StreamFrameV::Start { content_type: w.content_type };
            let (after, first) = w.step(op);
            &&& first == StepV::PublishStart(w.numbered(start))
            &&& after == (WriterV { progress: succ(w.progress), ..w })
            &&& after.step(next).1 == StepV::PublishStart(after.numbered(start))
        }),
{
}

/// The writer after some writes, and the frame of each, where a write says whether its frame
/// could be published.
pub open spec fn attempt_all(w: WriterV, attempts: Seq<(Seq<char>, bool)>) -> (
    WriterV,
    Seq<StepV>,
)
    decreases attempts.len(),
{
    if attempts.len() == 0 {
        (w, Seq::empty())
    } else {
        let (before, out) = attempt_all(w, attempts.drop_last());
        let (data, published) = attempts.last();
        let (after, next) = before.step(OpV::Write(data));
        (after.completed(OpV::Write(data), published).0, out.push(next))
    }
}

/// How many of some writes were published.
pub open spec fn published_count(attempts: Seq<(Seq<char>, bool)>) -> nat
    decreases attempts.len(),
{
    if attempts.len() == 0 {
        0
    } else {
        published_count(attempts.drop_last()) + if attempts.last().1 {
            1nat
        } else {
            0
        }
    }
}

/// The frame of every write carries the number of the chunks published before it, so that a chunk
/// that could not be published leaves its index to the next one, and a progress value greater than
/// that of all before it, so that a progress value is never used again.
pub proof fn unpublished_chunk_leaves_its_index(
    w: WriterV,
    attempts: Seq<(Seq<char>, bool)>,
    i: int,
)
    requires
        w.active,
        w.started,
        w.progress + attempts.len() <= u64::MAX,
        w.chunk_index + attempts.len() <= u64::MAX,
        0 <= i < attempts.len(),
    ensures
        attempt_all(w, attempts).1[i] == StepV::Publish(
            numbered(
                w.token,
                w.progress + 1 + i,
                StreamFrameV::Chunk {
                    chunk_index: (w.chunk_index + published_count(attempts.take(i))) as u64,
                    data: attempts[i].0,
                },
            ),
        ),
    decreases attempts.len(),
{
    let init = attempts.drop_last();
    attempts_counted(w, init);
    if i < init.len() {
        unpublished_chunk_leaves_its_index(w, init, i);
        assert(init.take(i) =~= attempts.take(i));
    } else {
        assert(attempts.take(i) =~= init);
    }
}

proof fn attempts_counted(w: WriterV, attempts: Seq<(Seq<char>, bool)>)
    requires
        w.active,
        w.started,
        w.progress + attempts.len() <= u64::MAX,
        w.chunk_index + attempts.len() <= u64::MAX,
    ensures
        published_count(attempts) <= attempts.len(),
        attempt_all(w, attempts).0 == (WriterV {
            progress: (w.progress + attempts.len()) as u64,
            chunk_index: (w.chunk_index + published_count(attempts)) as u64,
            ..w
        }),
        attempt_all(w, attempts).1.len() == attempts.len(),
    decreases attempts.len(),
{
    if attempts.len() > 0 {
        attempts_counted(w, attempts.drop_last());
    }
}

/// Once a stream is closed or aborted the writer publishes nothing any more.
pub proof fn writer_is_silent_after_end(w: WriterV, op: OpV)
    requires
        !w.active,
    ensures
        perform(w, op) == (w, Seq::<NotificationV>::empty()),
{
}

/// Aborting a live stream publishes one `abort` frame with its reason, and no other, and ends the
/// stream before that frame is out, whether or not it started. The end is told once, whether or
/// not the frame could be published. From then on no operation publishes anything or tells of an
/// end.
pub proof fn abort_goes_out_once(w: WriterV, reason: Option<Seq<char>>, published: bool, later: OpV)
    requires
        w.active,
    ensures
        ({
            let (claimed, next) = w.step(OpV::Abort(reason));
            let (over, end) = claimed.completed(OpV::Abort(reason), published);
            &&& next == StepV::Publish(w.numbered(StreamFrameV::Abort { reason }))
            &&& !claimed.active
            &&& end == Some(EndV::Aborted(reason))
            &&& over == claimed
            &&& claimed.step(later) == (claimed, StepV::Finished)
        }),
{
}

/// Closing a live stream that has started publishes one `close` frame, which declares the last
/// chunk that was published, and ends the stream before that frame is out. The end is told once,
/// whether or not the frame could be published. From then on no operation publishes anything or
/// tells of an end.
pub proof fn close_goes_out_once(w: WriterV, published: bool, later: OpV)
    requires
        w.active,
        w.started,
    ensures
        ({
            let (claimed, next) = w.step(OpV::Close);
            let (over, end) = claimed.completed(OpV::Close, published);
            &&& next == StepV::Publish(
                w.numbered(
                    StreamFrameV::Close { last_chunk_index: w.last_chunk_index() },
                ),
            )
            &&& !claimed.active
            &&& end == Some(EndV::Closed)
            &&& over == claimed
            &&& claimed.step(later) == (claimed, StepV::Finished)
        }),
{
}

/// Every frame that a writer publishes has a progress greater than all before it.
pub proof fn writer_progress_increases(w: WriterV, op: OpV)
    requires
        w.progress < u64::MAX - 1,
    ensures
        perform(w, op).0.progress == w.progress + perform(w, op).1.len(),
        forall|i: int|
            0 <= i < perform(w, op).1.len() ==> has_progress(
                #[trigger] perform(w, op).1[i],
                w.token,
                w.progress + 1 + i,
            ),
{
    let out = perform(w, op).1;
    assert forall|i: int| 0 <= i < out.len() implies has_progress(
        #[trigger] out[i],
        w.token,
        w.progress + 1 + i,
    ) by {
        let start = StreamFrameV::Start { content_type: w.content_type };
        let w1 = if w.owes_start(op) {
            WriterV { started: true, ..w.step(op).0 }
        } else {
            w
        };
        let own = match op {
            OpV::Write(data) => StreamFrameV::Chunk { chunk_index: w1.chunk_index, data },
            OpV::Ping => StreamFrameV::Ping { nonce: nonce_text(w1.token, succ(w1.nonces)) },
            OpV::Pong(nonce) => StreamFrameV::Pong { nonce },
            OpV::Close => StreamFrameV::Close { last_chunk_index: w1.last_chunk_index() },
            OpV::Abort(reason) => StreamFrameV::Abort { reason },
            OpV::Start => start,
        };
        if w.owes_start(op) && i == 0 {
            assert(out[i] == numbered(w.token, w.progress + 1 + i, start));
        } else {
            assert(out[i] == numbered(w.token, w.progress + 1 + i, own));
        }
    }
}

/// Feeds notifications to a registry in order; the results in order, and the registry
/// afterwards.
pub open spec fn route_all(r: RegistryV, now: u64, ns: Seq<NotificationV>) -> (
    RegistryV,
    Seq<RoutedV>,
)
    decreases ns.len(),
{
    if ns.len() == 0 {
        (r, Seq::empty())
    } else {
        let (before, out) = route_all(r, now, ns.drop_last());
        let (after, x) = route(before, now, ns.last());
        (after, out.push(x))
    }
}

/// A stream that has read the `start` frame and the chunks `data`.
spec fn mid_stream(
    token: Seq<char>,
    limits: StreamLimits,
    now: u64,
    data: Seq<Seq<char>>,
) -> SessionV {
    SessionV {
        started: true,
        last_progress: (data.len() + 1) as i64,
        queue: data,
        next: data.len() as int,
        ..SessionV::fresh(token, limits, false, now)
    }
}

spec fn quiet() -> RoutedV {
    RoutedV { result: Ok(OutcomeV::Nothing), ended: None }
}

proof fn parsed_frame(token: Seq<char>, progress: int, frame: StreamFrameV)
    requires
        token.len() > 0,
        0 <= progress <= i64::MAX,
    ensures
        parsed(numbered(token, progress, frame)) == Ok::<
            (Seq<char>, i64, StreamFrameV),
            StreamErrorV,
        >((token, progress as i64, frame)),
{
    stream_notification_round_trip(frame, token, progress as u64, None);
}

proof fn empty_buffer_frontier(next: int)
    ensures
        frontier(Map::<u64, Seq<char>>::empty(), next) == next,
{
    let none = Map::<u64, Seq<char>>::empty();
    assert(is_frontier(none, next, next));
    frontier_unique(none, next, next);
}

proof fn chunk_is_queued(
    token: Seq<char>,
    limits: StreamLimits,
    now: u64,
    data: Seq<Seq<char>>,
    text: Seq<char>,
)
    requires
        data.len() + 2 <= i64::MAX,
        data.len() < limits.max_buffered_chunks,
        seq_bytes(data) + text_bytes(text) <= limits.max_buffered_bytes,
    ensures
        mid_stream(token, limits, now, data).step(
            now,
            (data.len() + 2) as i64,
            StreamFrameV::Chunk { chunk_index: data.len() as u64, data: text },
        ) == (
            mid_stream(token, limits, now, data.push(text)),
            Ok::<OutcomeV, StreamErrorV>(OutcomeV::Nothing),
        ),
{
    let n = data.len();
    let s = SessionV {
        last_progress: (n + 2) as i64,
        ..mid_stream(token, limits, now, data)
    };
    let none = Map::<u64, Seq<char>>::empty();
    assert(none.dom() =~= Set::<u64>::empty());
    assert(map_bytes(none) == 0);
    assert(s.chunk_refusal(n as u64, text) is None);
    let one = none.insert(n as u64, text);
    let stored = SessionV { buffered: one, ..s };
    assert(has_chunk(one, n as int));
    assert(is_frontier(one, n as int, n as int + 1));
    frontier_unique(one, n as int, n as int + 1);
    assert(run_of(one, n as int, 1) =~= seq![text]);
    assert(data + seq![text] =~= data.push(text));
    assert(outside(one, n as int, n as int + 1) =~= none);
    assert(stored.flushed() == mid_stream(token, limits, now, data.push(text)));
}

proof fn seq_bytes_take(data: Seq<Seq<char>>, n: int)
    requires
        0 <= n <= data.len(),
    ensures
        seq_bytes(data.take(n)) <= seq_bytes(data),
{
    assert(data =~= data.take(n) + data.skip(n));
    seq_bytes_append(data.take(n), data.skip(n));
}

proof fn reader_mid_stream(
    r: RegistryV,
    now: u64,
    token: Seq<char>,
    content_type: Option<Seq<char>>,
    data: Seq<Seq<char>>,
    n: int,
)
    requires
        token.len() > 0,
        open_refusal(r, token) is None,
        0 <= n <= data.len(),
        data.len() + 2 <= i64::MAX,
        data.len() <= r.policy.stream_limits().max_buffered_chunks,
        seq_bytes(data) <= r.policy.stream_limits().max_buffered_bytes,
    ensures
        route_all(r, now, open_frames(token, content_type, data.take(n))) == (
            RegistryV {
                sessions: r.sessions.insert(
                    token,
                    mid_stream(token, r.policy.stream_limits(), now, data.take(n)),
                ),
                ..r
            },
            Seq::new((n + 1) as nat, |i: int| quiet()),
        ),
    decreases n,
{
    let limits = r.policy.stream_limits();
    let frames = open_frames(token, content_type, data.take(n));
    if n == 0 {
        let start = numbered(token, 1, StreamFrameV::Start { content_type });
        parsed_frame(token, 1, StreamFrameV::Start { content_type });
        assert(frames =~= seq![start]);
        assert(frames.drop_last() =~= Seq::<NotificationV>::empty());
        assert(route_all(r, now, frames.drop_last()) == (r, Seq::<RoutedV>::empty()));
        let fresh = SessionV::fresh(token, limits, false, now);
        assert(data.take(0) =~= Seq::<Seq<char>>::empty());
        let after = mid_stream(token, limits, now, data.take(0));
        assert(opened(r, token, false, now).sessions.insert(token, after) =~= r.sessions.insert(
            token,
            after,
        ));
        assert(Seq::<RoutedV>::empty().push(quiet()) =~= Seq::new(1, |i: int| quiet()));
    } else {
        reader_mid_stream(r, now, token, content_type, data, n - 1);
        let chunk = StreamFrameV::Chunk { chunk_index: (n - 1) as u64, data: data[n - 1] };
        assert(frames.drop_last() =~= open_frames(token, content_type, data.take(n - 1)));
        assert(frames.last() == numbered(token, n + 1, chunk));
        parsed_frame(token, n + 1, chunk);
        seq_bytes_take(data, n);
        assert(data.take(n).drop_last() =~= data.take(n - 1));
        assert(data.take(n - 1).push(data[n - 1]) =~= data.take(n));
        chunk_is_queued(token, limits, now, data.take(n - 1), data[n - 1]);
        let a = mid_stream(token, limits, now, data.take(n - 1));
        let b = mid_stream(token, limits, now, data.take(n));
        assert(r.sessions.insert(token, a).insert(token, b) =~= r.sessions.insert(token, b));
        assert(Seq::new(n as nat, |i: int| quiet()).push(quiet()) =~= Seq::new(
            (n + 1) as nat,
            |i: int| quiet(),
        ));
    }
}

/// What a writer wrote is what the reader gets: feeding the frames of a closed stream to a
/// registry that has room for it ends with a stream that closed without a failure and whose
/// chunks, in order, are the ones that were written; the registry is then as it was before.
pub proof fn reader_gets_what_writer_wrote(
    r: RegistryV,
    now: u64,
    token: Seq<char>,
    content_type: Option<Seq<char>>,
    data: Seq<Seq<char>>,
)
    requires
        token.len() > 0,
        open_refusal(r, token) is None,
        data.len() + 2 <= i64::MAX,
        data.len() <= r.policy.stream_limits().max_buffered_chunks,
        seq_bytes(data) <= r.policy.stream_limits().max_buffered_bytes,
    ensures
        ({
            let (after, results) = route_all(
                r,
                now,
                perform_all(
                    WriterV::fresh(token, content_type),
                    writes(data).push(OpV::Close),
                ).1,
            );
            let last = results.last();
            &&& after == r
            &&& results.len() == data.len() + 2
            &&& last.result == Ok::<OutcomeV, StreamErrorV>(OutcomeV::Closed)
            &&& last.ended matches Some((stream, end)) && end == EndV::Closed && stream.queue
                == data && !stream.active && stream.terminal is None
        }),
{
    writer_publishes_stream(token, content_type, data);
    let limits = r.policy.stream_limits();
    let frames = stream_frames(token, content_type, data);
    let n = data.len();
    assert(frames.drop_last() =~= open_frames(token, content_type, data));
    assert(data.take(n as int) =~= data);
    reader_mid_stream(r, now, token, content_type, data, n as int);
    parsed_frame(token, n as int + 2, close_frame(n));
    let mid = mid_stream(token, limits, now, data);
    empty_buffer_frontier(n as int);
    let none = Map::<u64, Seq<char>>::empty();
    assert(none.dom() =~= Set::<u64>::empty());
    assert(run_of(none, n as int, 0) =~= Seq::<Seq<char>>::empty());
    assert(data + Seq::<Seq<char>>::empty() =~= data);
    assert(outside(none, n as int, n as int) =~= none);
    assert(r.sessions.insert(token, mid).remove(token) =~= r.sessions);
}

/// A frame touches no stream but the one that its token names.
pub proof fn route_touches_one_stream(r: RegistryV, now: u64, n: NotificationV, other: Seq<char>)
    requires
        other != token_of(n),
    ensures
        ({
            let after = route(r, now, n).0;
            &&& after.policy == r.policy
            &&& after.sessions.contains_key(other) == r.sessions.contains_key(other)
            &&& r.sessions.contains_key(other) ==> after.sessions[other] == r.sessions[other]
        }),
{
}

/// A registry never holds more streams than it may, and a stream that failed, closed or was
/// aborted is no longer in it.
pub proof fn registry_stays_bounded(r: RegistryV, now: u64, n: NotificationV)
    requires
        r.sessions.dom().finite(),
        r.sessions.len() <= r.policy.max_concurrent_streams,
    ensures
        ({
            let (after, x) = route(r, now, n);
            &&& after.sessions.dom().finite()
            &&& after.sessions.len() <= r.policy.max_concurrent_streams
            &&& x.ended is Some ==> !after.sessions.contains_key(token_of(n))
        }),
{
    let token = token_of(n);
    if r.sessions.contains_key(token) {
        assert(r.sessions.dom().insert(token) =~= r.sessions.dom());
    }
}

/// Every stream that a registry holds is live: it takes only live streams in, and takes out each
/// one that a frame or a tick ends.
pub proof fn registered_streams_are_live(r: RegistryV, now: u64, n: NotificationV)
    requires
        forall|k: Seq<char>| #[trigger] r.sessions.contains_key(k) ==> r.sessions[k].active,
    ensures
        forall|k: Seq<char>| #[trigger]
            route(r, now, n).0.sessions.contains_key(k) ==> route(r, now, n).0.sessions[k].active,
        forall|k: Seq<char>| #[trigger]
            swept(r.sessions, now).contains_key(k) ==> swept(r.sessions, now)[k].active,
{
}

/// Only a `start` frame opens a stream; any other frame for a stream that is not open is refused.
pub proof fn only_start_opens_a_stream(r: RegistryV, now: u64, n: NotificationV, token: Seq<char>)
    requires
        !r.sessions.contains_key(token),
        !(stream_frame_of(n) matches Some(StreamFrameV::Start { .. })),
    ensures
        !route(r, now, n).0.sessions.contains_key(token),
        notification_token(n) == Some(token) ==> route(r, now, n).1.result is Err,
{
}

} // verus!
