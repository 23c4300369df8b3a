//! Laws of whole histories of a stream: what the consumer gets over any calls in any order.

use vstd::prelude::*;

use super::errors::StreamErrorV;
use super::frame::StreamFrameV;
use super::laws::{
    consumer_gets_content_in_order, follows, other_operations_keep_order, reader_keeps_order,
};
use super::session::{first_gap_exists, ItemV, SessionV, StreamLimits};
use crate::transport::oversized_transfer::receiver::{frontier, has_chunk};

verus! {

/// One call on a stream.
pub enum CallV {
    /// A frame arrives.
    Frame { now: u64, progress: i64, frame: StreamFrameV },
    /// The deadlines are checked.
    Tick { now: u64 },
    /// The stream fails.
    Fail { error: StreamErrorV },
    /// The stream is disposed of.
    Dispose,
    /// The consumer gives up.
    Abort { reason: Option<Seq<char>> },
    /// The consumer asks for the next item.
    Poll,
}

/// The stream after a call.
pub open spec fn called(s: SessionV, call: CallV) -> SessionV {
    match call {
        CallV::Frame { now, progress, frame } => s.step(now, progress, frame).0,
        CallV::Tick { now } => s.ticked(now).0,
        CallV::Fail { error } => s.finalized(Some(error)),
        CallV::Dispose => s.finalized(None),
        CallV::Abort { reason } => s.aborted(reason).0,
        CallV::Poll => s.polled().0,
    }
}

/// The stream after some calls.
pub open spec fn after(s: SessionV, calls: Seq<CallV>) -> SessionV
    decreases calls.len(),
{
    if calls.len() == 0 {
        s
    } else {
        called(after(s, calls.drop_last()), calls.last())
    }
}

/// The items that the consumer gets over some calls.
pub open spec fn items(s: SessionV, calls: Seq<CallV>) -> Seq<ItemV>
    decreases calls.len(),
{
    if calls.len() == 0 {
        Seq::empty()
    } else {
        let before = items(s, calls.drop_last());
        if calls.last() is Poll {
            before.push(after(s, calls.drop_last()).polled().1)
        } else {
            before
        }
    }
}

/// The chunks that the consumer gets over some calls.
pub open spec fn delivered(s: SessionV, calls: Seq<CallV>) -> Seq<Seq<char>>
    decreases calls.len(),
{
    if calls.len() == 0 {
        Seq::empty()
    } else {
        let before = delivered(s, calls.drop_last());
        match (calls.last(), after(s, calls.drop_last()).polled().1) {
            (CallV::Poll, ItemV::Chunk(text)) => before.push(text),
            _ => before,
        }
    }
}

/// The index and the data of the chunk that a stream takes in with a call, if it takes one in.
pub open spec fn takes(s: SessionV, call: CallV) -> Option<(u64, Seq<char>)> {
    match call {
        CallV::Frame { progress, frame: StreamFrameV::Chunk { chunk_index, data }, .. } => if s.active
            && progress > s.last_progress && s.started && s.chunk_refusal(chunk_index, data) is None {
            Some((chunk_index, data))
        } else {
            None
        },
        _ => None,
    }
}

/// The chunk that is taken in with the call at a position, if one is.
pub open spec fn taken_at(s: SessionV, calls: Seq<CallV>, j: int) -> Option<(u64, Seq<char>)> {
    takes(after(s, calls.take(j)), calls[j])
}

/// Whether a chunk is taken in with one of the calls.
pub open spec fn came(s: SessionV, calls: Seq<CallV>, index: int, data: Seq<char>) -> bool {
    exists|j: int|
        0 <= j < calls.len() && index <= u64::MAX && #[trigger] taken_at(s, calls, j) == Some(
            (index as u64, data),
        )
}

/// Whether a stream has, or had, a chunk of this index.
spec fn knows(s: SessionV, index: u64) -> bool {
    index < s.next || s.buffered.contains_key(index)
}

spec fn in_range(s: SessionV) -> bool {
    0 <= s.next <= u64::MAX + 1
}

proof fn flush_knows(s: SessionV)
    requires
        in_range(s),
    ensures
        in_range(s.flushed()),
        s.flushed().next >= s.next,
        forall|p: u64| knows(s.flushed(), p) <==> #[trigger] knows(s, p),
{
    let end = frontier(s.buffered, s.next);
    first_gap_exists(s.buffered, s.next);
    if end > u64::MAX + 1 {
        assert(has_chunk(s.buffered, u64::MAX + 1));
    }
    assert forall|p: u64| knows(s.flushed(), p) <==> #[trigger] knows(s, p) by {
        if s.next <= p < end {
            assert(has_chunk(s.buffered, p as int));
        }
    }
}

/// A call makes known the chunk that it takes in, and no other.
proof fn call_knows(s: SessionV, call: CallV)
    requires
        in_range(s),
    ensures
        in_range(called(s, call)),
        forall|p: u64| #[trigger]
            knows(called(s, call), p) <==> knows(s, p) || (takes(s, call) matches Some(c) && c.0
                == p),
        takes(s, call) matches Some(c) ==> !knows(s, c.0),
{
    match call {
        CallV::Frame { now, progress, frame } => {
            if s.active && progress > s.last_progress && s.started {
                let t = SessionV { last_progress: progress, last_activity: now, ..s };
                match frame {
                    StreamFrameV::Chunk { chunk_index, data } => {
                        assert(t.chunk_refusal(chunk_index, data) == s.chunk_refusal(
                            chunk_index,
                            data,
                        ));
                        if t.chunk_refusal(chunk_index, data) is None {
                            let stored = SessionV {
                                buffered: t.buffered.insert(chunk_index, data),
                                ..t
                            };
                            flush_knows(stored);
                            assert forall|p: u64| #[trigger]
                                knows(called(s, call), p) <==> knows(s, p) || p == chunk_index by {
                                assert(knows(stored, p) <==> knows(s, p) || p == chunk_index);
                            }
                        }
                    },
                    StreamFrameV::Close { last_chunk_index } => {
                        let closed = SessionV {
                            closed_remotely: true,
                            expected_last: last_chunk_index,
                            ..t
                        };
                        flush_knows(closed);
                        assert forall|p: u64| #[trigger]
                            knows(called(s, call), p) <==> knows(s, p) by {
                            assert(knows(closed, p) <==> knows(s, p));
                        }
                    },
                    _ => {},
                }
            }
        },
        _ => {},
    }
}

/// What is known after some calls is what was taken in with them.
proof fn known_came(
    token: Seq<char>,
    limits: StreamLimits,
    can_publish: bool,
    now: u64,
    calls: Seq<CallV>,
    k: int,
)
    requires
        0 <= k <= calls.len(),
    ensures
        ({
            let s = SessionV::fresh(token, limits, can_publish, now);
            let at = after(s, calls.take(k));
            &&& in_range(at)
            &&& forall|p: u64| #[trigger]
                knows(at, p) ==> exists|j: int|
                    0 <= j < k && (#[trigger] taken_at(s, calls, j) matches Some(c) && c.0 == p)
            &&& forall|j: int|
                0 <= j < k ==> (#[trigger] taken_at(s, calls, j) matches Some(c) ==> knows(
                    at,
                    c.0,
                ))
        }),
    decreases k,
{
    let s = SessionV::fresh(token, limits, can_publish, now);
    if k > 0 {
        known_came(token, limits, can_publish, now, calls, k - 1);
        let before = after(s, calls.take(k - 1));
        let at = after(s, calls.take(k));
        assert(calls.take(k).drop_last() =~= calls.take(k - 1));
        assert(calls.take(k).last() == calls[k - 1]);
        call_knows(before, calls[k - 1]);
        assert(taken_at(s, calls, k - 1) == takes(before, calls[k - 1]));
        assert forall|p: u64| #[trigger] knows(at, p) implies exists|j: int|
            0 <= j < k && (#[trigger] taken_at(s, calls, j) matches Some(c) && c.0 == p) by {
            if knows(before, p) {
                let j = choose|j: int|
                    0 <= j < k - 1 && (#[trigger] taken_at(s, calls, j) matches Some(c) && c.0
                        == p);
                assert(taken_at(s, calls, j) matches Some(c) && c.0 == p);
            }
        }
    }
}

/// The data that came under each index.
spec fn content_of(s: SessionV, calls: Seq<CallV>) -> spec_fn(int) -> Seq<char> {
    |index: int|
        taken_at(
            s,
            calls,
            choose|j: int|
                0 <= j < calls.len() && (#[trigger] taken_at(s, calls, j) matches Some(c) && c.0
                    == index),
        ).unwrap().1
}

/// A stream takes in every index once.
pub proof fn every_chunk_comes_once(
    token: Seq<char>,
    limits: StreamLimits,
    can_publish: bool,
    now: u64,
    calls: Seq<CallV>,
    i: int,
    j: int,
)
    requires
        0 <= i < j < calls.len(),
    ensures
        ({
            let s = SessionV::fresh(token, limits, can_publish, now);
            match (taken_at(s, calls, i), taken_at(s, calls, j)) {
                (Some(a), Some(b)) => a.0 != b.0,
                _ => true,
            }
        }),
{
    let s = SessionV::fresh(token, limits, can_publish, now);
    known_came(token, limits, can_publish, now, calls, j);
    call_knows(after(s, calls.take(j)), calls[j]);
}

proof fn content_is_what_came(
    token: Seq<char>,
    limits: StreamLimits,
    can_publish: bool,
    now: u64,
    calls: Seq<CallV>,
    j: int,
)
    requires
        0 <= j < calls.len(),
    ensures
        ({
            let s = SessionV::fresh(token, limits, can_publish, now);
            taken_at(s, calls, j) matches Some(c) ==> content_of(s, calls)(c.0 as int) == c.1
        }),
{
    let s = SessionV::fresh(token, limits, can_publish, now);
    if let Some(c) = taken_at(s, calls, j) {
        let i = choose|i: int|
            0 <= i < calls.len() && (#[trigger] taken_at(s, calls, i) matches Some(x) && x.0
                == c.0 as int);
        assert(taken_at(s, calls, i) matches Some(x) && x.0 == c.0);
        if i < j {
            every_chunk_comes_once(token, limits, can_publish, now, calls, i, j);
        } else if j < i {
            every_chunk_comes_once(token, limits, can_publish, now, calls, j, i);
        }
    }
}

proof fn history_follows(
    token: Seq<char>,
    limits: StreamLimits,
    can_publish: bool,
    now: u64,
    calls: Seq<CallV>,
    k: int,
)
    requires
        0 <= k <= calls.len(),
    ensures
        ({
            let s = SessionV::fresh(token, limits, can_publish, now);
            follows(
                after(s, calls.take(k)),
                delivered(s, calls.take(k)),
                content_of(s, calls),
            )
        }),
    decreases k,
{
    let s = SessionV::fresh(token, limits, can_publish, now);
    let content = content_of(s, calls);
    if k == 0 {
        other_operations_keep_order(s, Seq::empty(), content, now, None, None);
    } else {
        history_follows(token, limits, can_publish, now, calls, k - 1);
        let before = after(s, calls.take(k - 1));
        let out = delivered(s, calls.take(k - 1));
        let call = calls[k - 1];
        assert(calls.take(k).drop_last() =~= calls.take(k - 1));
        assert(calls.take(k).last() == call);
        match call {
            CallV::Frame { now: at, progress, frame } => {
                match frame {
                    StreamFrameV::Chunk { chunk_index, data } => {
                        if takes(before, call) is Some {
                            content_is_what_came(token, limits, can_publish, now, calls, k - 1);
                            assert(taken_at(s, calls, k - 1) == Some((chunk_index, data)));
                            reader_keeps_order(before, out, content, at, progress, frame);
                        } else {
                            let t = SessionV {
                                last_progress: progress,
                                last_activity: at,
                                ..before
                            };
                            assert(t.chunk_refusal(chunk_index, data) == before.chunk_refusal(
                                chunk_index,
                                data,
                            ));
                        }
                    },
                    _ => reader_keeps_order(before, out, content, at, progress, frame),
                }
            },
            CallV::Tick { now: at } => {
                other_operations_keep_order(before, out, content, at, None, None);
            },
            CallV::Fail { error } => {
                other_operations_keep_order(before, out, content, now, Some(error), None);
            },
            CallV::Dispose => {
                other_operations_keep_order(before, out, content, now, None, None);
            },
            CallV::Abort { reason } => {
                other_operations_keep_order(before, out, content, now, None, reason);
            },
            CallV::Poll => consumer_gets_content_in_order(before, out, content),
        }
    }
}

/// Over any calls, in any order, the consumer of a new stream gets the chunks in the order of
/// their indices, from the first on, without gaps and each with the data that came under its
/// index.
pub proof fn chunks_come_out_in_order(
    token: Seq<char>,
    limits: StreamLimits,
    can_publish: bool,
    now: u64,
    calls: Seq<CallV>,
    i: int,
)
    requires
        0 <= i < delivered(SessionV::fresh(token, limits, can_publish, now), calls).len(),
    ensures
        ({
            let s = SessionV::fresh(token, limits, can_publish, now);
            came(s, calls, i, delivered(s, calls)[i])
        }),
{
    let s = SessionV::fresh(token, limits, can_publish, now);
    let n = calls.len() as int;
    let content = content_of(s, calls);
    let end = after(s, calls);
    let out = delivered(s, calls);
    assert(calls.take(n) =~= calls);
    history_follows(token, limits, can_publish, now, calls, n);
    known_came(token, limits, can_publish, now, calls, n);
    assert((out + end.queue)[i] == Seq::new(end.next as nat, content)[i]);
    assert((out + end.queue).len() == end.next);
    assert(knows(end, i as u64));
    let j = choose|j: int|
        0 <= j < n && (#[trigger] taken_at(s, calls, j) matches Some(c) && c.0 == i as u64);
    content_is_what_came(token, limits, can_publish, now, calls, j);
    assert(taken_at(s, calls, j) == Some((i as u64, out[i])));
}

/// What the consumer of a stream that is over gets: the chunks that are queued, then the failure,
/// if there is one, and from then on that the stream is over.
pub open spec fn remaining(s: SessionV, i: int) -> ItemV {
    if i < s.queue.len() {
        ItemV::Chunk(s.queue[i])
    } else if i == s.queue.len() && s.terminal is Some {
        ItemV::Failed(s.terminal.unwrap())
    } else {
        ItemV::Ended
    }
}

/// Once a stream is over the consumer gets the chunks that are queued, then the failure, if there
/// is one, once, and then that the stream is over for ever, whatever else is called meanwhile.
pub proof fn ended_stream_drains(s: SessionV, calls: Seq<CallV>, i: int)
    requires
        !s.active,
        0 <= i < items(s, calls).len(),
    ensures
        items(s, calls)[i] == remaining(s, i),
{
    drained(s, calls);
}

proof fn drained(s: SessionV, calls: Seq<CallV>)
    requires
        !s.active,
    ensures
        ({
            let n = items(s, calls).len();
            let end = after(s, calls);
            &&& forall|i: int| 0 <= i < n ==> #[trigger] items(s, calls)[i] == remaining(s, i)
            &&& !end.active
            &&& forall|i: int| 0 <= i ==> #[trigger] remaining(end, i) == remaining(s, n + i)
        }),
    decreases calls.len(),
{
    if calls.len() > 0 {
        drained(s, calls.drop_last());
        let before = after(s, calls.drop_last());
        let end = after(s, calls);
        let m = items(s, calls.drop_last()).len() as int;
        let n = items(s, calls).len() as int;
        assert(calls.last() is Poll ==> before.polled().1 == remaining(before, 0));
        assert(calls.last() is Poll ==> before.polled().1 == remaining(s, m));
        assert forall|i: int| 0 <= i implies #[trigger] remaining(end, i) == remaining(s, n + i) by {
            if calls.last() is Poll {
                assert(remaining(end, i) == remaining(before, i + 1));
            } else {
                assert(end == before);
                assert(remaining(before, i) == remaining(s, m + i));
            }
        }
    }
}

/// The consumer is kept waiting exactly while the stream is live and nothing is queued.
pub proof fn pending_only_while_live(s: SessionV)
    ensures
        s.polled().1 is Pending <==> s.active && s.queue.len() == 0,
{
}

} // verus!
