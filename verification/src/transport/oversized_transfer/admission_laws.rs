//! Which frames of a transfer are taken, what they leave behind, and what a transfer ends with.

use vstd::prelude::*;
use vstd::utf8::*;

use super::codec::{
    chunk_texts, chunks_reassemble, concat, digest_of, first_chunk_slot, start_frame,
    transfer_frames,
};
use super::constants::START_PROGRESS;
use super::errors::TransferErrorV;
use super::frame::{frame_of, notification_round_trip, param, FrameV};
use super::receiver::{
    end_verdict, frame_step, frontier, has_chunk, is_expired, is_run, progress_of, run_of,
    step, token_of, TransferPolicy, TransferV,
};
use super::OversizedTransferConfig;
use crate::json::{JsonV, NumberV};
use crate::message::NotificationV;

verus! {

/// Whether a notification is a frame that a receiver takes up: with a token and a valid progress.
pub open spec fn is_valid(n: NotificationV) -> bool {
    token_of(n).len() > 0 && progress_of(param(n, "progress"@)) is Some
}

/// A transfer is admitted exactly if its token is not in use, what it declares is within the
/// limits, there is room for another one and its digest is one; from then on it is tracked with
/// what it declared and without any chunk, as admitted now. Otherwise nothing changes, and it is
/// refused as a duplicate, against the policy or as malformed.
pub proof fn transfers_are_admitted_within_limits(
    transfers: Map<Seq<char>, TransferV>,
    policy: TransferPolicy,
    now: u64,
    n: NotificationV,
    f: FrameV,
)
    requires
        is_valid(n),
        frame_of(n) == Some(f),
        f is Start,
    ensures
        ({
            let (after, outcome) = step(transfers, policy, now, n);
            let token = token_of(n);
            let fits = f->Start_total_bytes <= policy.max_transfer_bytes && f->Start_total_chunks
                <= policy.max_transfer_chunks && transfers.len() < policy.max_concurrent_transfers;
            let digest = f->Start_digest;
            let is_digest = digest.len() >= 7 && digest.take(7) == "sha256:"@;
            &&& outcome is Ok <==> !transfers.contains_key(token) && fits && is_digest
            &&& outcome is Err ==> after == transfers
            &&& outcome matches Err(e) ==> {
                &&& e is Sequence <==> transfers.contains_key(token)
                &&& e is Policy <==> !transfers.contains_key(token) && !fits
                &&& e is Reassembly <==> !transfers.contains_key(token) && fits && !is_digest
            }
            &&& outcome is Ok ==> {
                &&& outcome == Ok::<Option<Seq<char>>, TransferErrorV>(None)
                &&& after == transfers.insert(token, after[token])
                &&& Some(after[token].start) == progress_of(param(n, "progress"@))
                &&& after[token].total_bytes == f->Start_total_bytes
                &&& after[token].total_chunks == f->Start_total_chunks
                &&& after[token].digest == digest
                &&& after[token].admitted_at == now
                &&& after[token].chunks == Map::<u64, Seq<char>>::empty()
                &&& after[token].highest == after[token].start
            }
        }),
{
    reveal(frame_step);
    reveal_strlit("sha256:");
    assert("sha256:"@.len() == 7);
    let digest = f->Start_digest;
    if digest.len() >= 7 {
        assert(digest.take(7) =~= digest.subrange(0, 7));
    }
}

/// An `accept` of a tracked transfer has to come after its `start`. It changes nothing of the
/// chunks, and keeps its slot from being taken for a chunk's.
pub proof fn accepts_come_after_the_start(
    transfers: Map<Seq<char>, TransferV>,
    policy: TransferPolicy,
    now: u64,
    n: NotificationV,
)
    requires
        is_valid(n),
        frame_of(n) == Some(FrameV::Accept),
        transfers.contains_key(token_of(n)),
    ensures
        ({
            let (after, outcome) = step(transfers, policy, now, n);
            let t = transfers[token_of(n)];
            let progress = progress_of(param(n, "progress"@)).unwrap();
            &&& outcome is Ok <==> progress > t.start
            &&& outcome is Err ==> after == transfers.remove(token_of(n)) && outcome->Err_0 is Sequence
            &&& outcome is Ok ==> {
                let s = after[token_of(n)];
                &&& outcome == Ok::<Option<Seq<char>>, TransferErrorV>(None)
                &&& after == transfers.insert(token_of(n), s)
                &&& s.chunks == t.chunks && s.total_chunks == t.total_chunks && s.total_bytes
                    == t.total_bytes && s.digest == t.digest && s.start == t.start
                &&& s.first_chunk_slot() == t.start + 2
                &&& s.highest >= progress && s.highest >= t.highest
            }
        }),
{
    reveal(frame_step);
}

/// A chunk that is taken lies after the `start`, within what the transfer declared and within the
/// window, and is kept in its slot as it is; all others stay as they are. A chunk that is refused
/// ends the transfer.
pub proof fn chunks_are_kept_in_their_slots(
    transfers: Map<Seq<char>, TransferV>,
    policy: TransferPolicy,
    now: u64,
    n: NotificationV,
    data: Seq<char>,
    slot: u64,
)
    requires
        is_valid(n),
        frame_of(n) == Some(FrameV::Chunk { data }),
        transfers.contains_key(token_of(n)),
    ensures
        ({
            let (after, outcome) = step(transfers, policy, now, n);
            let t = transfers[token_of(n)];
            let progress = progress_of(param(n, "progress"@)).unwrap();
            &&& outcome is Err ==> after == transfers.remove(token_of(n))
            &&& outcome is Ok ==> {
                let s = after[token_of(n)];
                &&& outcome == Ok::<Option<Seq<char>>, TransferErrorV>(None)
                &&& after == transfers.insert(token_of(n), s)
                &&& t.start < progress <= t.start + t.total_chunks + 1
                &&& progress - t.expected() <= policy.max_out_of_order_window
                &&& s.chunks.contains_key(progress) && s.chunks[progress] == data
                &&& slot != progress ==> s.chunks.contains_key(slot) == t.chunks.contains_key(slot)
                &&& t.chunks.contains_key(slot) ==> s.chunks[slot] == t.chunks[slot]
                &&& s.total_chunks == t.total_chunks && s.total_bytes == t.total_bytes && s.digest
                    == t.digest && s.start == t.start && s.accept == t.accept
            }
            &&& t.chunks.contains_key(progress) && t.chunks[progress] != data ==> outcome is Err
            &&& progress <= t.start || progress > t.start + t.total_chunks + 1 || progress
                - t.expected() > policy.max_out_of_order_window ==> outcome is Err
            &&& t.chunks =~= Map::<u64, Seq<char>>::empty() && progress > t.start + 2 ==> outcome is Err
        }),
{
    reveal(frame_step);
    let t = transfers[token_of(n)];
    assert(transfers.insert(token_of(n), t) =~= transfers);
    if t.chunks =~= Map::<u64, Seq<char>>::empty() {
        assert(!has_chunk(t.chunks, t.start + 1));
        assert(!has_chunk(t.chunks, t.start + 2));
    }
}

/// The chunk that is expected next is always taken.
pub proof fn expected_chunk_is_taken(
    transfers: Map<Seq<char>, TransferV>,
    policy: TransferPolicy,
    now: u64,
    n: NotificationV,
    data: Seq<char>,
)
    requires
        is_valid(n),
        frame_of(n) == Some(FrameV::Chunk { data }),
        transfers.contains_key(token_of(n)),
        progress_of(param(n, "progress"@)).unwrap() == transfers[token_of(n)].expected(),
        transfers[token_of(n)].start < transfers[token_of(n)].expected()
            <= transfers[token_of(n)].start + transfers[token_of(n)].total_chunks + 1,
        !has_chunk(transfers[token_of(n)].chunks, transfers[token_of(n)].expected()),
        transfers[token_of(n)].expected() > transfers[token_of(n)].start + 2 ==> has_chunk(
            transfers[token_of(n)].chunks,
            transfers[token_of(n)].start + 1,
        ) || has_chunk(transfers[token_of(n)].chunks, transfers[token_of(n)].start + 2),
    ensures
        step(transfers, policy, now, n).1 == Ok::<Option<Seq<char>>, TransferErrorV>(None),
{
    reveal(frame_step);
}

/// A transfer ends with a payload exactly if its `end` comes after all of its frames, every chunk
/// that it declared is there without a gap, and what they add up to has the declared length and
/// digest; the payload is then that. Otherwise it fails: out of sequence, for want of chunks, or
/// for its length or digest.
pub proof fn payload_is_the_sum_of_the_chunks(t: TransferV, token: Seq<char>, progress: u64)
    ensures
        ({
            let outcome = end_verdict(t, token, progress);
            let n = t.total_chunks as int;
            let at = |first: int| concat(run_of(t.chunks, first, n as nat));
            let complete = |first: int|
                forall|p: int| first <= p < first + n ==> #[trigger] has_chunk(t.chunks, p);
            &&& outcome is Err || outcome->Ok_0 is Some
            &&& progress <= t.highest ==> (outcome matches Err(e) && e is Sequence)
            &&& progress > t.highest && t.chunks.len() != n ==> (outcome matches Err(e)
                && e is Reassembly)
            &&& progress > t.highest && !complete(t.start + 1) && !complete(t.start + 2) ==> (
            outcome matches Err(e) && e is Reassembly)
            &&& progress > t.highest && t.chunks.len() == n && complete(t.start + 1) ==> (if encode_utf8(
                at(t.start + 1),
            ).len() == t.total_bytes && digest_of(at(t.start + 1)) == t.digest {
                outcome == Ok::<Option<Seq<char>>, TransferErrorV>(Some(at(t.start + 1)))
            } else {
                outcome matches Err(e) && e is Digest
            })
            &&& progress > t.highest && t.chunks.len() == n && !complete(t.start + 1) && complete(
                t.start + 2,
            ) ==> (if encode_utf8(at(t.start + 2)).len() == t.total_bytes && digest_of(
                at(t.start + 2),
            ) == t.digest {
                outcome == Ok::<Option<Seq<char>>, TransferErrorV>(Some(at(t.start + 2)))
            } else {
                outcome matches Err(e) && e is Digest
            })
        }),
{
    let n = t.total_chunks as int;
    let complete = |first: int|
        forall|p: int| first <= p < first + n ==> #[trigger] has_chunk(t.chunks, p);
    assert(complete(t.start + 1) == is_run(t.chunks, t.start + 1, n));
    assert(complete(t.start + 2) == is_run(t.chunks, t.start + 2, n));
}

/// A transfer is overdue exactly if there is a timeout and more than that has passed since it was
/// admitted.
pub proof fn transfers_are_overdue_after_the_timeout(
    policy: TransferPolicy,
    admitted_at: u64,
    now: u64,
)
    ensures
        is_expired(policy, admitted_at, now) <==> policy.transfer_timeout_ms > 0 && now
            > admitted_at + policy.transfer_timeout_ms,
{
}

/// The limits of a receiver are those that are configured.
pub proof fn limits_are_configured(config: OversizedTransferConfig)
    ensures
        ({
            let policy: TransferPolicy = vstd::std_specs::convert::FromSpec::from_spec(&config);
            &&& policy.max_transfer_bytes == config.max_transfer_bytes
            &&& policy.max_transfer_chunks == config.max_transfer_chunks
            &&& policy.max_concurrent_transfers == config.max_concurrent_transfers
            &&& policy.max_out_of_order_window == config.max_out_of_order_window
            &&& policy.max_out_of_order_chunks == config.max_out_of_order_chunks
            &&& policy.transfer_timeout_ms == config.transfer_timeout_ms
        }),
{
}

/// The frames of a payload carry it: the `start` frame in the first slot declares its length, its
/// digest and the number of its chunks; then come the chunks, in consecutive slots, which add up
/// to the payload; then the `end` frame. With a handshake the slot after `start` stays free.
pub proof fn frames_carry_the_payload(
    text: Seq<char>,
    token: Seq<char>,
    chunk_size: int,
    handshake: bool,
    i: int,
)
    requires
        chunk_texts(text, chunk_size).len() + 3 <= u64::MAX,
        encode_utf8(text).len() <= u64::MAX,
        0 <= i < transfer_frames(text, token, chunk_size, handshake).len(),
    ensures
        ({
            let frames = transfer_frames(text, token, chunk_size, handshake);
            let parts = chunk_texts(text, chunk_size);
            let gap = if handshake {
                1int
            } else {
                0
            };
            let n = parts.len() as int;
            let progress = param(frames[i], "progress"@);
            &&& frames.len() == n + 2
            &&& concat(parts) == text
            &&& param(frames[i], "progressToken"@) == Some(JsonV::Text(token))
            &&& i == 0 ==> (frame_of(frames[i]) matches Some(f) && f is Start
                && f->Start_total_bytes == encode_utf8(text).len() && f->Start_total_chunks == n
                && f->Start_digest == digest_of(text)) && progress == Some(
                JsonV::Number(NumberV::Unsigned(1)),
            )
            &&& 0 < i <= n ==> frame_of(frames[i]) == Some(FrameV::Chunk { data: parts[i - 1] })
                && progress == Some(JsonV::Number(NumberV::Unsigned((1 + gap + i) as u64)))
            &&& i == n + 1 ==> frame_of(frames[i]) == Some(FrameV::End) && progress == Some(
                JsonV::Number(NumberV::Unsigned((2 + gap + n) as u64)),
            )
        }),
{
    let parts = chunk_texts(text, chunk_size);
    let first = first_chunk_slot(handshake);
    let n = parts.len() as int;
    chunks_reassemble(text, chunk_size);
    if i == 0 {
        notification_round_trip(start_frame(text, parts.len()), token, START_PROGRESS, None);
    } else if i <= n {
        notification_round_trip(
            FrameV::Chunk { data: parts[i - 1] },
            token,
            (first + i - 1) as u64,
            None,
        );
    } else {
        notification_round_trip(FrameV::End, token, (first + n) as u64, None);
    }
}

/// How many chunks a transfer holds beyond the first gap, once the chunk in `slot` is among them.
pub open spec fn beyond_the_gap(t: TransferV, slot: u64, data: Seq<char>) -> int {
    let chunks = t.chunks.insert(slot, data);
    let first = t.start + if t.accept is Some {
        2int
    } else {
        1
    };
    chunks.len() - (frontier(chunks, first) - first)
}

/// A new chunk within the window and within what the transfer declared is taken exactly if it is
/// the one expected or an earlier one, or if no more chunks are then held beyond the first gap than
/// the limit allows.
pub proof fn chunks_beyond_the_gap_are_limited(
    transfers: Map<Seq<char>, TransferV>,
    policy: TransferPolicy,
    now: u64,
    n: NotificationV,
    data: Seq<char>,
)
    requires
        is_valid(n),
        frame_of(n) == Some(FrameV::Chunk { data }),
        transfers.contains_key(token_of(n)),
        ({
            let t = transfers[token_of(n)];
            let progress = progress_of(param(n, "progress"@)).unwrap();
            &&& t.start < progress <= t.start + t.total_chunks + 1
            &&& progress - t.expected() <= policy.max_out_of_order_window
            &&& !t.chunks.contains_key(progress)
            &&& progress <= t.start + 2 || has_chunk(t.chunks, t.start + 1) || has_chunk(
                t.chunks,
                t.start + 2,
            )
        }),
    ensures
        ({
            let t = transfers[token_of(n)];
            let progress = progress_of(param(n, "progress"@)).unwrap();
            let outcome = step(transfers, policy, now, n).1;
            &&& outcome is Ok <==> progress <= t.expected() || beyond_the_gap(t, progress, data)
                <= policy.max_out_of_order_chunks
            &&& outcome matches Err(e) ==> e is Policy
        }),
{
    reveal(frame_step);
}

/// The chunk that is expected next is the first that is missing, in the slot after the `start` or,
/// once the `accept` is there, after that.
pub proof fn first_missing_chunk_is_expected(t: TransferV, slot: u64, data: Seq<char>)
    requires
        !t.chunks.contains_key(slot),
    ensures
        ({
            let first = t.start + if t.accept is Some {
                2int
            } else {
                1
            };
            &&& t.next is None ==> t.expected() == first
            &&& t.with_chunk(slot, data).expected() == frontier(t.chunks.insert(slot, data), first)
            &&& t.with_chunk(slot, data).chunks == t.chunks.insert(slot, data)
            &&& t.with_chunk(slot, data).highest >= slot && t.with_chunk(slot, data).highest
                >= t.highest
            &&& t.with_chunk(slot, data).highest == slot || t.with_chunk(slot, data).highest
                == t.highest
        }),
{
}

/// A valid progress is a whole number greater than zero.
pub proof fn progress_is_a_positive_number(n: u64, m: i64, t: Seq<char>)
    ensures
        n > 0 ==> progress_of(Some(JsonV::Number(NumberV::Unsigned(n)))) == Some(n),
        progress_of(Some(JsonV::Number(NumberV::Unsigned(0)))) is None,
        progress_of(Some(JsonV::Number(NumberV::Signed(m)))) is None,
        progress_of(Some(JsonV::Text(t))) is None,
        progress_of(None) is None,
{
}

} // verus!
