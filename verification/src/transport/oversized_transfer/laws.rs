//! Laws of oversized transfers: what the sender's frames, the receiver's state and its outcomes
//! have to do with each other.

use vstd::prelude::*;
use vstd::utf8::*;

use super::codec::{
    chunk_notification, chunk_notifications, chunk_texts, chunks_reassemble, concat, digest_of,
    end_notification, first_chunk_slot, start_frame, start_notification, transfer_frames,
};
use super::constants::{ACCEPT_PROGRESS, DIGEST_PREFIX, START_PROGRESS};
use super::errors::TransferErrorV;
use super::frame::{
    frame_of, notification_round_trip, param, progress_notification, FrameV,
};
use super::receiver::{
    chunk_verdict, end_verdict, frame_step, fresh_transfer, frontier, has_chunk, has_digest_prefix,
    is_frontier, is_run, progress_of, run_of, step, token_of, Outcome, TransferPolicy, TransferV,
};
use crate::message::NotificationV;

verus! {

/// Feeds notifications in order, each at its time, up to the first that completes a transfer or
/// fails.
pub open spec fn feed(
    transfers: Map<Seq<char>, TransferV>,
    policy: TransferPolicy,
    times: spec_fn(int) -> u64,
    ns: Seq<NotificationV>,
) -> (Map<Seq<char>, TransferV>, Outcome)
    decreases ns.len(),
{
    if ns.len() == 0 {
        (transfers, Ok(None))
    } else {
        let before = feed(transfers, policy, times, ns.drop_last());
        if before.1 == Ok::<Option<Seq<char>>, TransferErrorV>(None) {
            step(before.0, policy, times(ns.len() - 1), ns.last())
        } else {
            before
        }
    }
}

/// The `accept` notification of a receiver.
pub open spec fn accept_notification(token: Seq<char>) -> NotificationV {
    progress_notification(token, ACCEPT_PROGRESS, None, FrameV::Accept.cvm())
}

/// The frames that a receiver takes in for a payload sent in order: `start`, with a handshake
/// the `accept` that it issued itself, the chunks and `end`.
pub open spec fn conversation(
    text: Seq<char>,
    token: Seq<char>,
    chunk_size: int,
    handshake: bool,
) -> Seq<NotificationV> {
    let parts = chunk_texts(text, chunk_size);
    let first = first_chunk_slot(handshake);
    opening(text, token, chunk_size, handshake) + chunk_notifications(token, first, parts) + seq![
        end_notification(token, first + parts.len()),
    ]
}

/// The frames before the first chunk.
pub open spec fn opening(
    text: Seq<char>,
    token: Seq<char>,
    chunk_size: int,
    handshake: bool,
) -> Seq<NotificationV> {
    let start = start_notification(text, token, chunk_size);
    if handshake {
        seq![start, accept_notification(token)]
    } else {
        seq![start]
    }
}

/// The chunks `parts`, the first in slot `first`, by progress.
pub open spec fn laid_out(first: int, parts: Seq<Seq<char>>) -> Map<u64, Seq<char>> {
    Map::new(
        |p: u64| first <= p < first + parts.len(),
        |p: u64| parts[p - first],
    )
}

/// The transfer after `start`, the `accept` of a handshake and the first `i` chunks.
spec fn partial(
    text: Seq<char>,
    parts: Seq<Seq<char>>,
    handshake: bool,
    i: int,
    now: u64,
) -> TransferV {
    let first = first_chunk_slot(handshake);
    TransferV {
        digest: digest_of(text),
        total_bytes: encode_utf8(text).len() as u64,
        total_chunks: parts.len() as u64,
        start: START_PROGRESS,
        accept: if handshake {
            Some(ACCEPT_PROGRESS)
        } else {
            None
        },
        first: if i == 0 {
            None
        } else {
            Some(first)
        },
        next: if i == 0 {
            None
        } else {
            Some(first + i)
        },
        highest: (first + i - 1) as u64,
        chunks: laid_out(first, parts.take(i)),
        admitted_at: now,
    }
}

proof fn laid_out_frontier(first: int, parts: Seq<Seq<char>>)
    requires
        0 <= first,
        first + parts.len() <= u64::MAX,
    ensures
        is_frontier(laid_out(first, parts), first, first + parts.len()),
        frontier(laid_out(first, parts), first) == first + parts.len(),
{
    let chunks = laid_out(first, parts);
    let next = first + parts.len();
    assert(is_frontier(chunks, first, next));
    let other = frontier(chunks, first);
    assert(is_frontier(chunks, first, other));
    if other < next {
        assert(has_chunk(chunks, other));
    }
    if next < other {
        assert(has_chunk(chunks, next));
    }
}

proof fn laid_out_len(first: int, parts: Seq<Seq<char>>)
    requires
        0 <= first,
        first + parts.len() <= u64::MAX,
    ensures
        laid_out(first, parts).dom().finite(),
        laid_out(first, parts).len() == parts.len(),
    decreases parts.len(),
{
    if parts.len() == 0 {
        assert(laid_out(first, parts).dom() =~= Set::<u64>::empty());
    } else {
        let last = (first + parts.len() - 1) as u64;
        laid_out_len(first, parts.drop_last());
        assert(laid_out(first, parts).dom() =~= laid_out(first, parts.drop_last()).dom().insert(
            last,
        ));
    }
}

proof fn chunk_accepted(
    text: Seq<char>,
    parts: Seq<Seq<char>>,
    handshake: bool,
    i: int,
    now: u64,
    policy: TransferPolicy,
    token: Seq<char>,
)
    requires
        0 <= i < parts.len(),
        first_chunk_slot(handshake) + parts.len() <= u64::MAX,
    ensures
        chunk_verdict(
            partial(text, parts, handshake, i, now),
            policy,
            token,
            (first_chunk_slot(handshake) + i) as u64,
            parts[i],
        ) == Ok::<TransferV, TransferErrorV>(partial(text, parts, handshake, i + 1, now)),
{
    let first = first_chunk_slot(handshake);
    let t = partial(text, parts, handshake, i, now);
    let progress = (first + i) as u64;
    let after = t.with_chunk(progress, parts[i]);
    assert(after.chunks =~= laid_out(first, parts.take(i + 1)));
    laid_out_frontier(first, parts.take(i + 1));
    assert(t.expected() == first + i);
    if i > 0 {
        assert(has_chunk(t.chunks, first));
    }
    assert(!t.chunks.contains_key(progress));
    assert(after == partial(text, parts, handshake, i + 1, now));
}

/// Whatever the order in which its chunks arrived, a transfer that holds exactly the chunks of a
/// payload, either directly behind `start` or with the `accept` slot left free, ends with that
/// payload.
pub proof fn complete_transfer_ends_with_payload(
    t: TransferV,
    text: Seq<char>,
    parts: Seq<Seq<char>>,
    handshake: bool,
    token: Seq<char>,
    progress: u64,
)
    requires
        concat(parts) == text,
        encode_utf8(text).len() <= u64::MAX,
        t.start + (if handshake {
            2int
        } else {
            1
        }) + parts.len() <= u64::MAX,
        t.chunks == laid_out(
            t.start + if handshake {
                2int
            } else {
                1
            },
            parts,
        ),
        t.total_chunks == parts.len(),
        t.total_bytes == encode_utf8(text).len(),
        t.digest == digest_of(text),
        progress > t.highest,
    ensures
        end_verdict(t, token, progress) == Ok::<Option<Seq<char>>, TransferErrorV>(Some(text)),
{
    let first = t.start + if handshake {
        2int
    } else {
        1
    };
    let n = parts.len();
    laid_out_len(first, parts);
    assert(is_run(t.chunks, first, n as int));
    assert(run_of(t.chunks, first, n) =~= parts);
    if handshake && n > 0 {
        assert(!has_chunk(t.chunks, t.start + 1));
        assert(!is_run(t.chunks, t.start + 1, n as int));
    }
    if handshake && n == 0 {
        assert(run_of(t.chunks, t.start + 1, n) =~= parts);
    }
}

proof fn digest_is_prefixed(text: Seq<char>)
    ensures
        has_digest_prefix(digest_of(text)),
{
    assert(digest_of(text).subrange(0, DIGEST_PREFIX@.len() as int) =~= DIGEST_PREFIX@);
}

proof fn feed_append(
    transfers: Map<Seq<char>, TransferV>,
    policy: TransferPolicy,
    times: spec_fn(int) -> u64,
    ns: Seq<NotificationV>,
    n: NotificationV,
)
    ensures
        feed(transfers, policy, times, ns).1 == Ok::<Option<Seq<char>>, TransferErrorV>(None)
            ==> feed(transfers, policy, times, ns.push(n)) == step(
            feed(transfers, policy, times, ns).0,
            policy,
            times(ns.len() as int),
            n,
        ),
{
    assert(ns.push(n).drop_last() =~= ns);
}

proof fn after_chunks(
    transfers: Map<Seq<char>, TransferV>,
    policy: TransferPolicy,
    times: spec_fn(int) -> u64,
    text: Seq<char>,
    token: Seq<char>,
    chunk_size: int,
    handshake: bool,
    i: int,
)
    requires
        token.len() > 0,
        !transfers.contains_key(token),
        encode_utf8(text).len() <= policy.max_transfer_bytes,
        chunk_texts(text, chunk_size).len() <= policy.max_transfer_chunks,
        transfers.len() < policy.max_concurrent_transfers,
        first_chunk_slot(handshake) + chunk_texts(text, chunk_size).len() <= u64::MAX,
        0 <= i <= chunk_texts(text, chunk_size).len(),
    ensures
        ({
            let parts = chunk_texts(text, chunk_size);
            let first = first_chunk_slot(handshake);
            feed(
                transfers,
                policy,
                times,
                opening(text, token, chunk_size, handshake) + chunk_notifications(
                    token,
                    first,
                    parts.take(i),
                ),
            ) == (
                transfers.insert(token, partial(text, parts, handshake, i, times(0))),
                Ok::<Option<Seq<char>>, TransferErrorV>(None),
            )
        }),
    decreases i,
{
    reveal(frame_step);
    let parts = chunk_texts(text, chunk_size);
    let first = first_chunk_slot(handshake);
    let head = opening(text, token, chunk_size, handshake);
    if i == 0 {
        assert(head + chunk_notifications(token, first, parts.take(0)) =~= head);
        let frame = start_frame(text, parts.len());
        let start = start_notification(text, token, chunk_size);
        notification_round_trip(frame, token, START_PROGRESS, None);
        digest_is_prefixed(text);
        let none = Seq::<NotificationV>::empty();
        feed_append(transfers, policy, times, none, start);
        assert(none.push(start) =~= seq![start]);
        let opened = fresh_transfer(
            START_PROGRESS,
            digest_of(text),
            encode_utf8(text).len() as u64,
            parts.len() as u64,
            times(0),
        );
        assert(feed(transfers, policy, times, seq![start]) == (
            transfers.insert(token, opened),
            Ok::<Option<Seq<char>>, TransferErrorV>(None),
        ));
        assert(laid_out(first, parts.take(0)) =~= Map::<u64, Seq<char>>::empty());
        if handshake {
            let accept = accept_notification(token);
            notification_round_trip(FrameV::Accept, token, ACCEPT_PROGRESS, None);
            feed_append(transfers, policy, times, seq![start], accept);
            assert(seq![start].push(accept) =~= head);
            let p = partial(text, parts, handshake, 0, times(0));
            assert(transfers.insert(token, opened).insert(token, p) =~= transfers.insert(token, p));
        }
    } else {
        after_chunks(transfers, policy, times, text, token, chunk_size, handshake, i - 1);
        let before = head + chunk_notifications(token, first, parts.take(i - 1));
        let n = chunk_notification(token, first + i - 1, parts[i - 1]);
        assert(head + chunk_notifications(token, first, parts.take(i)) =~= before.push(n));
        feed_append(transfers, policy, times, before, n);
        notification_round_trip(
            FrameV::Chunk { data: parts[i - 1] },
            token,
            (first + i - 1) as u64,
            None,
        );
        chunk_accepted(text, parts, handshake, i - 1, times(0), policy, token);
        let a = partial(text, parts, handshake, i - 1, times(0));
        let b = partial(text, parts, handshake, i, times(0));
        assert(transfers.insert(token, a).insert(token, b) =~= transfers.insert(token, b));
    }
}

/// The frames before the first chunk are taken in where the receiver's policy admits the payload.
pub proof fn opening_is_taken(
    transfers: Map<Seq<char>, TransferV>,
    policy: TransferPolicy,
    times: spec_fn(int) -> u64,
    text: Seq<char>,
    token: Seq<char>,
    chunk_size: int,
    handshake: bool,
)
    requires
        token.len() > 0,
        !transfers.contains_key(token),
        encode_utf8(text).len() <= policy.max_transfer_bytes,
        chunk_texts(text, chunk_size).len() <= policy.max_transfer_chunks,
        transfers.len() < policy.max_concurrent_transfers,
        first_chunk_slot(handshake) + chunk_texts(text, chunk_size).len() <= u64::MAX,
    ensures
        feed(transfers, policy, times, opening(text, token, chunk_size, handshake)).1 == Ok::<
            Option<Seq<char>>,
            TransferErrorV,
        >(None),
{
    let head = opening(text, token, chunk_size, handshake);
    let parts = chunk_texts(text, chunk_size);
    let first = first_chunk_slot(handshake);
    after_chunks(transfers, policy, times, text, token, chunk_size, handshake, 0);
    assert(head + chunk_notifications(token, first, parts.take(0)) =~= head);
}

/// Where all of some frames neither complete a transfer nor fail, none of the first of them does.
proof fn feed_prefix(
    transfers: Map<Seq<char>, TransferV>,
    policy: TransferPolicy,
    times: spec_fn(int) -> u64,
    ns: Seq<NotificationV>,
    k: int,
)
    requires
        0 <= k <= ns.len(),
        feed(transfers, policy, times, ns).1 == Ok::<Option<Seq<char>>, TransferErrorV>(None),
    ensures
        feed(transfers, policy, times, ns.take(k)).1 == Ok::<Option<Seq<char>>, TransferErrorV>(
            None,
        ),
    decreases ns.len(),
{
    if k == ns.len() {
        assert(ns.take(k) =~= ns);
    } else {
        feed_prefix(transfers, policy, times, ns.drop_last(), k);
        assert(ns.drop_last().take(k) =~= ns.take(k));
    }
}

/// A payload that the receiver's policy admits comes out as it went in: feeding the frames that
/// carry it in order, with or without a handshake, completes with exactly that payload, and
/// leaves the receiver as it was before. No frame before the last completes anything or fails.
/// Without a handshake the frames are those that the sender builds, and no others.
pub proof fn transfer_round_trip(
    transfers: Map<Seq<char>, TransferV>,
    policy: TransferPolicy,
    times: spec_fn(int) -> u64,
    text: Seq<char>,
    token: Seq<char>,
    chunk_size: int,
    handshake: bool,
)
    requires
        token.len() > 0,
        !transfers.contains_key(token),
        encode_utf8(text).len() <= policy.max_transfer_bytes,
        chunk_texts(text, chunk_size).len() <= policy.max_transfer_chunks,
        transfers.len() < policy.max_concurrent_transfers,
        first_chunk_slot(handshake) + chunk_texts(text, chunk_size).len() <= u64::MAX,
    ensures
        feed(transfers, policy, times, conversation(text, token, chunk_size, handshake)) == (
            transfers,
            Ok::<Option<Seq<char>>, TransferErrorV>(Some(text)),
        ),
        forall|k: int|
            0 <= k < conversation(text, token, chunk_size, handshake).len() ==> feed(
                transfers,
                policy,
                times,
                #[trigger] conversation(text, token, chunk_size, handshake).take(k),
            ).1 == Ok::<Option<Seq<char>>, TransferErrorV>(None),
        !handshake ==> conversation(text, token, chunk_size, handshake) == transfer_frames(
            text,
            token,
            chunk_size,
            handshake,
        ),
{
    reveal(frame_step);
    let parts = chunk_texts(text, chunk_size);
    let first = first_chunk_slot(handshake);
    let n = parts.len() as int;
    let head = opening(text, token, chunk_size, handshake) + chunk_notifications(
        token,
        first,
        parts,
    );
    let end = end_notification(token, first + n);
    assert(parts.take(n) =~= parts);
    after_chunks(transfers, policy, times, text, token, chunk_size, handshake, n);
    assert(conversation(text, token, chunk_size, handshake) =~= head.push(end));
    feed_append(transfers, policy, times, head, end);
    notification_round_trip(FrameV::End, token, (first + n) as u64, None);
    chunks_reassemble(text, chunk_size);
    let t = partial(text, parts, handshake, n, times(0));
    complete_transfer_ends_with_payload(t, text, parts, handshake, token, (first + n) as u64);
    assert(transfers.insert(token, t).remove(token) =~= transfers);
    let all = conversation(text, token, chunk_size, handshake);
    assert forall|k: int| 0 <= k < all.len() implies feed(
        transfers,
        policy,
        times,
        #[trigger] all.take(k),
    ).1 == Ok::<Option<Seq<char>>, TransferErrorV>(None) by {
        feed_prefix(transfers, policy, times, head, k);
        assert(head.take(k) =~= all.take(k));
    }
}

/// A transfer after several chunks, or why one of them is refused.
pub open spec fn taken(
    t: TransferV,
    policy: TransferPolicy,
    token: Seq<char>,
    list: Seq<(u64, Seq<char>)>,
) -> Result<TransferV, TransferErrorV>
    decreases list.len(),
{
    if list.len() == 0 {
        Ok(t)
    } else {
        match taken(t, policy, token, list.drop_last()) {
            Ok(s) => chunk_verdict(s, policy, token, list.last().0, list.last().1),
            Err(e) => Err(e),
        }
    }
}

/// Whether a list of chunks with their slots carries `parts`, the first of them in slot `first`:
/// it holds nothing else, and each of them at least once.
pub open spec fn carries(list: Seq<(u64, Seq<char>)>, first: int, parts: Seq<Seq<char>>) -> bool {
    &&& forall|i: int|
        0 <= i < list.len() ==> first <= (#[trigger] list[i]).0 < first + parts.len() && list[i].1
            == parts[list[i].0 - first]
    &&& forall|slot: int|
        first <= slot < first + parts.len() ==> #[trigger] in_slot(list, slot)
}

/// Whether one of the chunks is in this slot.
pub open spec fn in_slot(list: Seq<(u64, Seq<char>)>, slot: int) -> bool {
    exists|i: int| 0 <= i < list.len() && (#[trigger] list[i]).0 == slot
}

proof fn taken_chunks(
    t: TransferV,
    policy: TransferPolicy,
    token: Seq<char>,
    list: Seq<(u64, Seq<char>)>,
)
    requires
        taken(t, policy, token, list) is Ok,
    ensures
        ({
            let s = taken(t, policy, token, list)->Ok_0;
            &&& s.start == t.start
            &&& s.total_bytes == t.total_bytes
            &&& s.total_chunks == t.total_chunks
            &&& s.digest == t.digest
            &&& forall|p: u64| #[trigger]
                s.chunks.contains_key(p) <==> t.chunks.contains_key(p) || in_slot(list, p as int)
            &&& forall|p: u64| #[trigger]
                t.chunks.contains_key(p) ==> s.chunks[p] == t.chunks[p]
            &&& forall|i: int|
                0 <= i < list.len() ==> s.chunks[(#[trigger] list[i]).0] == list[i].1
            &&& s.highest >= t.highest
            &&& forall|i: int|
                0 <= i < list.len() ==> t.chunks.contains_key((#[trigger] list[i]).0) || s.highest
                    >= list[i].0
            &&& s.highest == t.highest || (in_slot(list, s.highest as int)
                && !t.chunks.contains_key(s.highest))
        }),
    decreases list.len(),
{
    if list.len() > 0 {
        let init = list.drop_last();
        taken_chunks(t, policy, token, init);
        let before = taken(t, policy, token, init)->Ok_0;
        let s = taken(t, policy, token, list)->Ok_0;
        let last = list.last();
        assert(list[list.len() - 1] == last);
        assert forall|p: int| in_slot(list, p) == (in_slot(init, p) || p == last.0) by {
            if in_slot(init, p) {
                let i = choose|i: int| 0 <= i < init.len() && (#[trigger] init[i]).0 == p;
                assert(list[i].0 == p);
            }
            if in_slot(list, p) && p != last.0 {
                let i = choose|i: int| 0 <= i < list.len() && (#[trigger] list[i]).0 == p;
                assert(init[i].0 == p);
            }
        }
        assert forall|i: int| 0 <= i < list.len() implies s.chunks[(#[trigger] list[i]).0]
            == list[i].1 && (t.chunks.contains_key(list[i].0) || s.highest >= list[i].0) by {
            if i < init.len() {
                assert(init[i] == list[i]);
                assert(in_slot(init, init[i].0 as int));
                assert(before.chunks.contains_key(init[i].0));
            } else if before.chunks.contains_key(last.0) && !t.chunks.contains_key(last.0) {
                assert(in_slot(init, last.0 as int));
                let k = choose|k: int| 0 <= k < init.len() && (#[trigger] init[k]).0 == last.0 as int;
                assert(before.highest >= init[k].0);
            }
        }
        assert(before.chunks.contains_key(last.0) || in_slot(list, last.0 as int));
    }
}

/// The order in which the chunks arrive does not matter, nor does it that some arrive twice: if
/// none is refused, and each has arrived, the transfer ends with the payload.
pub proof fn chunks_may_arrive_in_any_order(
    t: TransferV,
    policy: TransferPolicy,
    token: Seq<char>,
    text: Seq<char>,
    parts: Seq<Seq<char>>,
    handshake: bool,
    list: Seq<(u64, Seq<char>)>,
    progress: u64,
)
    requires
        t.chunks == Map::<u64, Seq<char>>::empty(),
        t.start + (if handshake {
            2int
        } else {
            1
        }) + parts.len() <= u64::MAX,
        t.total_chunks == parts.len(),
        t.total_bytes == encode_utf8(text).len(),
        t.digest == digest_of(text),
        concat(parts) == text,
        carries(
            list,
            t.start + if handshake {
                2int
            } else {
                1
            },
            parts,
        ),
        taken(t, policy, token, list) matches Ok(s) && progress > s.highest,
    ensures
        end_verdict(taken(t, policy, token, list)->Ok_0, token, progress) == Ok::<
            Option<Seq<char>>,
            TransferErrorV,
        >(Some(text)),
{
    let first = t.start + if handshake {
        2int
    } else {
        1
    };
    let s = taken(t, policy, token, list)->Ok_0;
    taken_chunks(t, policy, token, list);
    assert forall|p: u64| #[trigger] s.chunks.contains_key(p) == (first <= p < first + parts.len()) by {
        if in_slot(list, p as int) {
            let i = choose|i: int| 0 <= i < list.len() && (#[trigger] list[i]).0 == p as int;
            assert(first <= list[i].0);
        }
        if first <= p < first + parts.len() {
            assert(in_slot(list, p as int));
        }
    }
    assert forall|p: u64| s.chunks.contains_key(p) implies #[trigger] s.chunks[p] == parts[p
        - first] by {
        let i = choose|i: int| 0 <= i < list.len() && (#[trigger] list[i]).0 == p as int;
        assert(s.chunks[list[i].0] == list[i].1);
    }
    assert(s.chunks =~= laid_out(first, parts));
    complete_transfer_ends_with_payload(s, text, parts, handshake, token, progress);
}

/// The slot and the data of a `chunk` frame.
pub open spec fn chunk_of(n: NotificationV) -> Option<(u64, Seq<char>)> {
    match (progress_of(param(n, "progress"@)), frame_of(n)) {
        (Some(progress), Some(FrameV::Chunk { data })) => Some((progress, data)),
        _ => None,
    }
}

/// Whether all of some notifications are chunks of the transfer `token`.
pub open spec fn are_chunks(ns: Seq<NotificationV>, token: Seq<char>) -> bool {
    forall|i: int|
        0 <= i < ns.len() ==> token_of(#[trigger] ns[i]) == token && chunk_of(ns[i]) is Some
}

/// The slots and the data of some chunks, in their order.
pub open spec fn chunk_list(ns: Seq<NotificationV>) -> Seq<(u64, Seq<char>)> {
    Seq::new(ns.len(), |i: int| chunk_of(ns[i]).unwrap())
}

proof fn fed_chunks(
    transfers: Map<Seq<char>, TransferV>,
    policy: TransferPolicy,
    times: spec_fn(int) -> u64,
    ns: Seq<NotificationV>,
    token: Seq<char>,
)
    requires
        token.len() > 0,
        transfers.contains_key(token),
        are_chunks(ns, token),
        feed(transfers, policy, times, ns).1 == Ok::<Option<Seq<char>>, TransferErrorV>(None),
    ensures
        taken(transfers[token], policy, token, chunk_list(ns)) is Ok,
        feed(transfers, policy, times, ns).0 == transfers.insert(
            token,
            taken(transfers[token], policy, token, chunk_list(ns))->Ok_0,
        ),
    decreases ns.len(),
{
    reveal(frame_step);
    let t = transfers[token];
    if ns.len() == 0 {
        assert(transfers.insert(token, t) =~= transfers);
    } else {
        let init = ns.drop_last();
        assert(are_chunks(init, token)) by {
            assert forall|i: int| 0 <= i < init.len() implies token_of(#[trigger] init[i]) == token
                && chunk_of(init[i]) is Some by {
                assert(init[i] == ns[i]);
            }
        }
        fed_chunks(transfers, policy, times, init, token);
        assert(chunk_list(ns).drop_last() =~= chunk_list(init));
        let last = ns.last();
        assert(ns[ns.len() - 1] == last);
        assert(chunk_list(ns).last() == chunk_of(last).unwrap());
        let before = taken(t, policy, token, chunk_list(init))->Ok_0;
        let after = taken(t, policy, token, chunk_list(ns));
        if after is Ok {
            assert(transfers.insert(token, before).insert(token, after->Ok_0)
                =~= transfers.insert(token, after->Ok_0));
        }
    }
}

/// What a transfer ends with does not depend on the order in which its chunks arrived: two
/// receivers that track it alike, but for when they admitted it, and that then took in the same
/// chunks, in any orders and with any repetitions, hold the same chunks and answer every `end`
/// frame alike, with the same payload or the same failure.
pub proof fn arrival_order_never_matters(
    a: Map<Seq<char>, TransferV>,
    b: Map<Seq<char>, TransferV>,
    policy_a: TransferPolicy,
    policy_b: TransferPolicy,
    times_a: spec_fn(int) -> u64,
    times_b: spec_fn(int) -> u64,
    chunks_a: Seq<NotificationV>,
    chunks_b: Seq<NotificationV>,
    token: Seq<char>,
    end: NotificationV,
    now_a: u64,
    now_b: u64,
)
    requires
        token.len() > 0,
        a.contains_key(token),
        b.contains_key(token),
        b[token] == (TransferV { admitted_at: b[token].admitted_at, ..a[token] }),
        are_chunks(chunks_a, token),
        are_chunks(chunks_b, token),
        chunk_list(chunks_a).to_set() == chunk_list(chunks_b).to_set(),
        feed(a, policy_a, times_a, chunks_a).1 == Ok::<Option<Seq<char>>, TransferErrorV>(None),
        feed(b, policy_b, times_b, chunks_b).1 == Ok::<Option<Seq<char>>, TransferErrorV>(None),
        token_of(end) == token,
        frame_of(end) == Some(FrameV::End),
    ensures
        ({
            let fed_a = feed(a, policy_a, times_a, chunks_a).0;
            let fed_b = feed(b, policy_b, times_b, chunks_b).0;
            &&& fed_a[token].chunks == fed_b[token].chunks
            &&& forall|progress: u64| #[trigger]
                end_verdict(fed_a[token], token, progress) == end_verdict(
                    fed_b[token],
                    token,
                    progress,
                )
            &&& step(fed_a, policy_a, now_a, end).1 == step(fed_b, policy_b, now_b, end).1
        }),
{
    reveal(frame_step);
    fed_chunks(a, policy_a, times_a, chunks_a, token);
    fed_chunks(b, policy_b, times_b, chunks_b, token);
    let list_a = chunk_list(chunks_a);
    let list_b = chunk_list(chunks_b);
    let s = taken(a[token], policy_a, token, list_a)->Ok_0;
    let t = taken(b[token], policy_b, token, list_b)->Ok_0;
    taken_chunks(a[token], policy_a, token, list_a);
    taken_chunks(b[token], policy_b, token, list_b);
    same_slots(list_a, list_b);
    same_slots(list_b, list_a);
    assert forall|p: u64| s.chunks.contains_key(p) implies #[trigger] s.chunks[p] == t.chunks[p] by {
        if !a[token].chunks.contains_key(p) {
            let i = choose|i: int| 0 <= i < list_a.len() && (#[trigger] list_a[i]).0 == p as int;
            assert(s.chunks[list_a[i].0] == list_a[i].1);
            assert(list_a.to_set().contains(list_a[i]));
            assert(list_b.to_set().contains(list_a[i]));
            let j = list_b.index_of(list_a[i]);
            assert(t.chunks[list_b[j].0] == list_b[j].1);
        }
    }
    assert(s.chunks =~= t.chunks);
    assert(s.highest == t.highest) by {
        if in_slot(list_a, s.highest as int) {
            let i = choose|i: int|
                0 <= i < list_b.len() && (#[trigger] list_b[i]).0 == s.highest as int;
            assert(list_b[i].0 == s.highest);
        }
        if in_slot(list_b, t.highest as int) {
            let i = choose|i: int|
                0 <= i < list_a.len() && (#[trigger] list_a[i]).0 == t.highest as int;
            assert(list_a[i].0 == t.highest);
        }
    }
    assert(s.assembled() == t.assembled());
}

/// Two receivers that admitted the same `start` frame, each at its own time, and then took in the
/// same chunks, in any orders and with any repetitions, answer every `end` frame alike.
pub proof fn same_frames_end_alike(
    a: Map<Seq<char>, TransferV>,
    b: Map<Seq<char>, TransferV>,
    policy_a: TransferPolicy,
    policy_b: TransferPolicy,
    started_a: u64,
    started_b: u64,
    times_a: spec_fn(int) -> u64,
    times_b: spec_fn(int) -> u64,
    start: NotificationV,
    chunks_a: Seq<NotificationV>,
    chunks_b: Seq<NotificationV>,
    end: NotificationV,
    now_a: u64,
    now_b: u64,
)
    requires
        frame_of(start) matches Some(frame) && frame is Start,
        step(a, policy_a, started_a, start).1 is Ok,
        step(b, policy_b, started_b, start).1 is Ok,
        are_chunks(chunks_a, token_of(start)),
        are_chunks(chunks_b, token_of(start)),
        chunk_list(chunks_a).to_set() == chunk_list(chunks_b).to_set(),
        feed(step(a, policy_a, started_a, start).0, policy_a, times_a, chunks_a).1 == Ok::<
            Option<Seq<char>>,
            TransferErrorV,
        >(None),
        feed(step(b, policy_b, started_b, start).0, policy_b, times_b, chunks_b).1 == Ok::<
            Option<Seq<char>>,
            TransferErrorV,
        >(None),
        token_of(end) == token_of(start),
        frame_of(end) == Some(FrameV::End),
    ensures
        ({
            let admitted_a = step(a, policy_a, started_a, start).0;
            let admitted_b = step(b, policy_b, started_b, start).0;
            let fed_a = feed(admitted_a, policy_a, times_a, chunks_a).0;
            let fed_b = feed(admitted_b, policy_b, times_b, chunks_b).0;
            step(fed_a, policy_a, now_a, end).1 == step(fed_b, policy_b, now_b, end).1
        }),
{
    reveal(frame_step);
    arrival_order_never_matters(
        step(a, policy_a, started_a, start).0,
        step(b, policy_b, started_b, start).0,
        policy_a,
        policy_b,
        times_a,
        times_b,
        chunks_a,
        chunks_b,
        token_of(start),
        end,
        now_a,
        now_b,
    );
}

proof fn same_slots(a: Seq<(u64, Seq<char>)>, b: Seq<(u64, Seq<char>)>)
    requires
        a.to_set() == b.to_set(),
    ensures
        forall|slot: int| #[trigger] in_slot(a, slot) ==> in_slot(b, slot),
{
    assert forall|slot: int| #[trigger] in_slot(a, slot) implies in_slot(b, slot) by {
        let i = choose|i: int| 0 <= i < a.len() && (#[trigger] a[i]).0 == slot;
        assert(a.to_set().contains(a[i]));
        assert(b.to_set().contains(a[i]));
        let j = b.index_of(a[i]);
        assert(b[j].0 == slot);
    }
}

/// A transfer within the limits of `policy` and consistent with itself: its chunks lie in the
/// declared slots, and the contiguous run is where the bookkeeping says.
pub open spec fn is_sound(policy: TransferPolicy, t: TransferV) -> bool {
    &&& t.total_bytes <= policy.max_transfer_bytes
    &&& t.total_chunks <= policy.max_transfer_chunks
    &&& has_digest_prefix(t.digest)
    &&& t.start <= t.highest
    &&& t.chunks.dom().finite()
    &&& forall|p: u64| #[trigger]
        t.chunks.contains_key(p) ==> t.start < p <= t.start + t.total_chunks + 1 && p <= t.highest
    &&& match (t.first, t.next) {
        (Some(first), Some(next)) => {
            &&& first == t.start + 1 || (first == t.start + 2 && t.accept is Some)
            &&& is_frontier(t.chunks, first, next)
            &&& t.chunks.len() > 0
        },
        (None, None) => t.chunks.len() == 0,
        _ => false,
    }
}

/// A receiver within its limits: no more transfers than it may track, each of them sound.
pub open spec fn is_bounded(policy: TransferPolicy, transfers: Map<Seq<char>, TransferV>) -> bool {
    &&& transfers.dom().finite()
    &&& transfers.len() <= policy.max_concurrent_transfers
    &&& forall|k: Seq<char>| #[trigger]
        transfers.contains_key(k) ==> is_sound(policy, transfers[k])
}

proof fn frontier_reached(chunks: Map<u64, Seq<char>>, first: int, bound: int)
    requires
        first <= bound,
        !has_chunk(chunks, bound),
    ensures
        is_frontier(chunks, first, frontier(chunks, first)),
    decreases bound - first,
{
    if forall|p: int| first <= p < bound ==> has_chunk(chunks, p) {
        assert(is_frontier(chunks, first, bound));
    } else {
        let p = choose|p: int| first <= p < bound && !has_chunk(chunks, p);
        frontier_reached(chunks, first, p);
    }
}

proof fn chunk_keeps_sound(
    policy: TransferPolicy,
    t: TransferV,
    token: Seq<char>,
    progress: u64,
    data: Seq<char>,
)
    requires
        is_sound(policy, t),
    ensures
        chunk_verdict(t, policy, token, progress, data) matches Ok(u) ==> is_sound(policy, u),
{
    let after = t.with_chunk(progress, data);
    if chunk_verdict(t, policy, token, progress, data) == Ok::<TransferV, TransferErrorV>(after) {
        frontier_reached(after.chunks, t.first_chunk_slot(), u64::MAX + 3);
        assert(after.chunks.contains_key(progress));
        assert(after.chunks.dom() =~= t.chunks.dom().insert(progress));
        assert(after.chunks.len() > 0) by {
            if after.chunks.dom().len() == 0 {
                assert(after.chunks.dom() =~= Set::<u64>::empty());
            }
        }
    }
}

/// Every notification leaves a receiver that was within its limits within its limits.
pub proof fn step_keeps_bounds(
    transfers: Map<Seq<char>, TransferV>,
    policy: TransferPolicy,
    now: u64,
    n: NotificationV,
)
    requires
        is_bounded(policy, transfers),
    ensures
        is_bounded(policy, step(transfers, policy, now, n).0),
{
    reveal(frame_step);
    let token = token_of(n);
    let after = step(transfers, policy, now, n).0;
    if transfers.contains_key(token) {
        if let Some(FrameV::Chunk { data }) = frame_of(n) {
            if let Some(progress) = progress_of(param(n, "progress"@)) {
                chunk_keeps_sound(policy, transfers[token], token, progress, data);
            }
        }
        assert(transfers.dom().insert(token) =~= transfers.dom());
    }
    assert forall|k: Seq<char>| #[trigger] after.contains_key(k) implies is_sound(
        policy,
        after[k],
    ) by {
        if k != token {
            assert(transfers.contains_key(k));
        } else {
            if transfers.contains_key(k) {
                assert(is_sound(policy, transfers[k]));
            } else {
                assert(after[k].chunks.dom() =~= Set::<u64>::empty());
            }
        }
    }
}

/// A frame touches no transfer but the one that its token names.
pub proof fn step_touches_one_transfer(
    transfers: Map<Seq<char>, TransferV>,
    policy: TransferPolicy,
    now: u64,
    n: NotificationV,
    other: Seq<char>,
)
    requires
        other != token_of(n),
    ensures
        ({
            let after = step(transfers, policy, now, n).0;
            &&& after.contains_key(other) == transfers.contains_key(other)
            &&& transfers.contains_key(other) ==> after[other] == transfers[other]
        }),
{
    reveal(frame_step);
}

/// A failure drops the transfer that it is about. The exception is a refused `start`, which
/// leaves everything as it was, as does a frame without a token or a valid progress.
pub proof fn failure_drops_the_transfer(
    transfers: Map<Seq<char>, TransferV>,
    policy: TransferPolicy,
    now: u64,
    n: NotificationV,
)
    ensures
        ({
            let (after, outcome) = step(transfers, policy, now, n);
            outcome is Err ==> (!after.contains_key(token_of(n)) || after == transfers && (
            frame_of(n) matches Some(FrameV::Start { .. }) || token_of(n).len() == 0
                || progress_of(param(n, "progress"@)) is None))
        }),
{
    reveal(frame_step);
}

/// Late frames are harmless: an `accept`, `chunk` or `end` for a token that is not tracked
/// changes nothing and is no failure.
pub proof fn orphan_frames_are_ignored(
    transfers: Map<Seq<char>, TransferV>,
    policy: TransferPolicy,
    now: u64,
    n: NotificationV,
)
    requires
        !transfers.contains_key(token_of(n)),
        token_of(n).len() > 0,
        progress_of(param(n, "progress"@)) is Some,
        frame_of(n) matches Some(f) && (f is Accept || f is Chunk || f is End),
    ensures
        step(transfers, policy, now, n) == (transfers, Ok::<Option<Seq<char>>, TransferErrorV>(None)),
{
    reveal(frame_step);
}

/// Only an `end` frame for a tracked transfer hands out a payload, and that payload has the
/// length and the digest that the transfer declared; the transfer is then no longer tracked.
pub proof fn payload_is_what_was_declared(
    transfers: Map<Seq<char>, TransferV>,
    policy: TransferPolicy,
    now: u64,
    n: NotificationV,
)
    ensures
        ({
            let (after, outcome) = step(transfers, policy, now, n);
            outcome matches Ok(Some(text)) ==> {
                &&& frame_of(n) == Some(FrameV::End)
                &&& transfers.contains_key(token_of(n))
                &&& encode_utf8(text).len() == transfers[token_of(n)].total_bytes
                &&& digest_of(text) == transfers[token_of(n)].digest
                &&& after == transfers.remove(token_of(n))
            }
        }),
{
    reveal(frame_step);
}

/// A transfer that is aborted is gone, and the abort is reported whether or not it was tracked.
pub proof fn abort_is_terminal(
    transfers: Map<Seq<char>, TransferV>,
    policy: TransferPolicy,
    now: u64,
    n: NotificationV,
    reason: Option<Seq<char>>,
)
    requires
        frame_of(n) == Some(FrameV::Abort { reason }),
        token_of(n).len() > 0,
        progress_of(param(n, "progress"@)) is Some,
    ensures
        step(transfers, policy, now, n) == (
            transfers.remove(token_of(n)),
            Err::<Option<Seq<char>>, TransferErrorV>(
                TransferErrorV::Abort { token: token_of(n), reason },
            ),
        ),
{
    reveal(frame_step);
}

/// A chunk that arrives once more, unchanged, changes nothing.
pub proof fn duplicate_chunk_is_idempotent(
    policy: TransferPolicy,
    t: TransferV,
    token: Seq<char>,
    progress: u64,
    data: Seq<char>,
)
    requires
        is_sound(policy, t),
        chunk_verdict(t, policy, token, progress, data) is Ok,
    ensures
        ({
            let once = chunk_verdict(t, policy, token, progress, data)->Ok_0;
            chunk_verdict(once, policy, token, progress, data) == Ok::<TransferV, TransferErrorV>(
                once,
            )
        }),
{
    let once = chunk_verdict(t, policy, token, progress, data)->Ok_0;
    if !t.chunks.contains_key(progress) {
        let slot = t.first_chunk_slot();
        frontier_reached(once.chunks, slot, u64::MAX + 3);
        let new_next = frontier(once.chunks, slot);
        assert(is_frontier(once.chunks, slot, new_next));
        assert(once.expected() == new_next);
        if t.next is Some {
            let first = t.first.unwrap();
            let next = t.next.unwrap();
            if new_next < next {
                if first <= new_next {
                    assert(has_chunk(t.chunks, new_next));
                    assert(has_chunk(once.chunks, new_next));
                }
            }
        }
        assert(once.expected() >= t.expected());
        if has_chunk(t.chunks, t.start + 1) {
            assert(has_chunk(once.chunks, t.start + 1));
        }
        if has_chunk(t.chunks, t.start + 2) {
            assert(has_chunk(once.chunks, t.start + 2));
        }
    }
}

/// The deadline of a transfer counts from its admission: no later frame moves it.
pub proof fn deadline_is_never_moved(
    transfers: Map<Seq<char>, TransferV>,
    policy: TransferPolicy,
    now: u64,
    n: NotificationV,
    token: Seq<char>,
)
    requires
        transfers.contains_key(token),
    ensures
        ({
            let after = step(transfers, policy, now, n).0;
            after.contains_key(token) ==> after[token].admitted_at == transfers[token].admitted_at
        }),
{
    reveal(frame_step);
}

} // verus!
