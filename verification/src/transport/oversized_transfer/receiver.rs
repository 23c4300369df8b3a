//! Reassembly of oversized transfers.
//!
//! [`OversizedTransferReceiver::process_frame`] takes inbound progress notifications and hands
//! out the payload of a transfer once every chunk is there and the declared length and digest
//! match. The engine owns no clock: the caller passes the time in milliseconds, and sweeps
//! [`OversizedTransferReceiver::remove_expired`] to enforce the hard deadline of a transfer.
//!
//! Positions next to the progress values that peers choose are computed in 128 bits, so no
//! progress value can make them wrap.

use std::collections::BTreeMap;

use vstd::prelude::*;
use vstd::string::*;
use vstd::utf8::*;

use super::codec::{concat, digest_of, sha256_digest, utf8_byte_len};
use super::constants::{
    DEFAULT_MAX_CONCURRENT_TRANSFERS, DEFAULT_MAX_OUT_OF_ORDER_CHUNKS,
    DEFAULT_MAX_OUT_OF_ORDER_WINDOW, DEFAULT_MAX_TRANSFER_BYTES, DEFAULT_MAX_TRANSFER_CHUNKS,
    DEFAULT_TRANSFER_TIMEOUT_MS, DIGEST_PREFIX, OVERSIZED_TRANSFER_TYPE,
};
use super::errors::{OversizedTransferError, TransferErrorV};
use super::frame::{
    frame_of, param, progress_token_string, text_of, token_text, FrameV, OversizedFrame,
};
use crate::json::{opt_json_ref, Json, JsonV, Number, NumberV};
use crate::message::{JsonRpcMessage, JsonRpcNotification, NotificationV};
use crate::text::{decimal, decimal_text, opt_text, same_text, texts};
use crate::text_map::TextMap;

verus! {

broadcast use vstd::std_specs::btree::group_btree_axioms;

/// Limits that a receiver enforces.
#[derive(Clone, Copy, PartialEq, Eq, Structural, Debug)]
pub struct TransferPolicy {
    /// Largest payload accepted, in bytes.
    pub max_transfer_bytes: u64,
    /// Largest number of chunks accepted.
    pub max_transfer_chunks: u64,
    /// Largest number of concurrently active transfers.
    pub max_concurrent_transfers: usize,
    /// Largest gap between a chunk and the contiguous frontier.
    pub max_out_of_order_window: u64,
    /// Largest number of chunks buffered beyond the contiguous frontier.
    pub max_out_of_order_chunks: usize,
    /// Hard deadline of a transfer, measured from its admission; `0` means none.
    pub transfer_timeout_ms: u64,
}

impl Default for TransferPolicy {
    fn default() -> (r: Self)
        ensures
            r == (TransferPolicy {
                max_transfer_bytes: DEFAULT_MAX_TRANSFER_BYTES,
                max_transfer_chunks: DEFAULT_MAX_TRANSFER_CHUNKS,
                max_concurrent_transfers: DEFAULT_MAX_CONCURRENT_TRANSFERS,
                max_out_of_order_window: DEFAULT_MAX_OUT_OF_ORDER_WINDOW,
                max_out_of_order_chunks: DEFAULT_MAX_OUT_OF_ORDER_CHUNKS,
                transfer_timeout_ms: DEFAULT_TRANSFER_TIMEOUT_MS,
            }),
    {
        TransferPolicy {
            max_transfer_bytes: DEFAULT_MAX_TRANSFER_BYTES,
            max_transfer_chunks: DEFAULT_MAX_TRANSFER_CHUNKS,
            max_concurrent_transfers: DEFAULT_MAX_CONCURRENT_TRANSFERS,
            max_out_of_order_window: DEFAULT_MAX_OUT_OF_ORDER_WINDOW,
            max_out_of_order_chunks: DEFAULT_MAX_OUT_OF_ORDER_CHUNKS,
            transfer_timeout_ms: DEFAULT_TRANSFER_TIMEOUT_MS,
        }
    }
}

/// Model of one transfer in flight.
pub struct TransferV {
    /// Declared digest.
    pub digest: Seq<char>,
    /// Declared length in bytes.
    pub total_bytes: u64,
    /// Declared number of chunks.
    pub total_chunks: u64,
    /// Progress of the `start` frame.
    pub start: u64,
    /// Progress of the latest `accept` frame.
    pub accept: Option<u64>,
    /// Slot of the first chunk, as of the latest chunk.
    pub first: Option<int>,
    /// First slot of the contiguous run that is still missing, as of the latest chunk.
    pub next: Option<int>,
    /// Highest progress seen so far.
    pub highest: u64,
    /// Received chunks by progress.
    pub chunks: Map<u64, Seq<char>>,
    /// When the transfer was admitted.
    pub admitted_at: u64,
}

/// Whether there is a chunk in slot `p`.
pub open spec fn has_chunk(chunks: Map<u64, Seq<char>>, p: int) -> bool {
    0 <= p <= u64::MAX && chunks.contains_key(p as u64)
}

/// Whether the chunks from slot `first` on run without a gap up to, not including, slot `next`.
pub open spec fn is_frontier(chunks: Map<u64, Seq<char>>, first: int, next: int) -> bool {
    &&& first <= next
    &&& forall|p: int| first <= p < next ==> has_chunk(chunks, p)
    &&& !has_chunk(chunks, next)
}

/// The first slot from `first` on without a chunk.
pub open spec fn frontier(chunks: Map<u64, Seq<char>>, first: int) -> int {
    choose|next: int| is_frontier(chunks, first, next)
}

/// Where the contiguous run ends is unique.
pub proof fn frontier_unique(chunks: Map<u64, Seq<char>>, first: int, next: int)
    requires
        is_frontier(chunks, first, next),
    ensures
        frontier(chunks, first) == next,
{
    let other = frontier(chunks, first);
    assert(is_frontier(chunks, first, other));
    if other < next {
        assert(has_chunk(chunks, other));
    }
    if next < other {
        assert(has_chunk(chunks, next));
    }
}

/// Whether every slot of `n` slots from `first` on holds a chunk.
pub open spec fn is_run(chunks: Map<u64, Seq<char>>, first: int, n: int) -> bool {
    forall|p: int| first <= p < first + n ==> has_chunk(chunks, p)
}

/// The chunks in `n` slots from `first` on.
pub open spec fn run_of(chunks: Map<u64, Seq<char>>, first: int, n: nat) -> Seq<Seq<char>> {
    Seq::new(n, |i: int| chunks[(first + i) as u64])
}

impl TransferV {
    /// Slot of the first chunk: the slot after `start`, or the one after that once an `accept`
    /// has been seen.
    pub open spec fn first_chunk_slot(self) -> int {
        self.start + if self.accept is Some {
            2int
        } else {
            1
        }
    }

    /// The next slot of the contiguous run.
    pub open spec fn expected(self) -> int {
        match self.next {
            Some(n) => n,
            None => self.first_chunk_slot(),
        }
    }

    /// How many chunks lie outside the contiguous run.
    pub open spec fn out_of_order(self) -> int {
        match (self.first, self.next) {
            (Some(first), Some(next)) => self.chunks.len() - (next - first),
            _ => 0,
        }
    }

    /// The transfer with one more chunk.
    pub open spec fn with_chunk(self, progress: u64, data: Seq<char>) -> TransferV {
        let chunks = self.chunks.insert(progress, data);
        TransferV {
            chunks,
            highest: if progress > self.highest {
                progress
            } else {
                self.highest
            },
            first: Some(self.first_chunk_slot()),
            next: Some(frontier(chunks, self.first_chunk_slot())),
            ..self
        }
    }

    /// The slot at which the chunks are complete, with the `accept` slot unused or skipped.
    pub open spec fn assembly_first(self) -> Option<int> {
        if is_run(self.chunks, self.start + 1, self.total_chunks as int) {
            Some(self.start + 1)
        } else if is_run(self.chunks, self.start + 2, self.total_chunks as int) {
            Some(self.start + 2)
        } else {
            None
        }
    }

    /// The payload, if no chunk is missing.
    pub open spec fn assembled(self) -> Option<Seq<char>> {
        match self.assembly_first() {
            Some(first) => Some(concat(run_of(self.chunks, first, self.total_chunks as nat))),
            None => None,
        }
    }
}

/// Whether a notification carries something of the shape of an oversized frame.
pub open spec fn looks_oversized(n: NotificationV) -> bool {
    match param(n, "cvm"@) {
        Some(cvm) => text_of(cvm.field("type"@)) == Some(OVERSIZED_TRANSFER_TYPE@) && text_of(
            cvm.field("frameType"@),
        ) is Some,
        None => false,
    }
}

/// A message about the transfer `token`.
pub open spec fn about(message: Seq<char>, token: Seq<char>) -> Seq<char> {
    message + " (token: "@ + token + ")"@
}

pub(crate) fn about_text(message: &str, token: &str) -> (r: String)
    ensures
        r@ == about(message@, token@),
{
    let mut s = message.to_owned();
    s.append(" (token: ");
    s.append(token);
    s.append(")");
    s
}

/// A message that holds two numbers.
pub open spec fn with_numbers(
    head: Seq<char>,
    a: nat,
    middle: Seq<char>,
    b: nat,
    tail: Seq<char>,
) -> Seq<char> {
    head + decimal(a) + middle + decimal(b) + tail
}

fn with_numbers_text(head: &str, a: u64, middle: &str, b: u64, tail: &str) -> (r: String)
    ensures
        r@ == with_numbers(head@, a as nat, middle@, b as nat, tail@),
{
    let mut s = head.to_owned();
    s.append(decimal_text(a).as_str());
    s.append(middle);
    s.append(decimal_text(b).as_str());
    s.append(tail);
    s
}

/// A message that ends in a number.
pub open spec fn with_limit(head: Seq<char>, limit: nat) -> Seq<char> {
    head + decimal(limit)
}

fn with_limit_text(head: &str, limit: u64) -> (r: String)
    ensures
        r@ == with_limit(head@, limit as nat),
{
    let mut s = head.to_owned();
    s.append(decimal_text(limit).as_str());
    s
}

/// The outcome of one frame: the payload of a completed transfer, nothing yet, or a failure.
pub type Outcome = Result<Option<Seq<char>>, TransferErrorV>;

/// Whether `text` starts with the digest prefix.
pub open spec fn has_digest_prefix(text: Seq<char>) -> bool {
    text.len() >= DIGEST_PREFIX@.len() && text.subrange(0, DIGEST_PREFIX@.len() as int)
        == DIGEST_PREFIX@
}

/// Why a `start` frame is refused, if it is.
pub open spec fn start_refusal(
    transfers: Map<Seq<char>, TransferV>,
    policy: TransferPolicy,
    token: Seq<char>,
    digest: Seq<char>,
    total_bytes: u64,
    total_chunks: u64,
) -> Option<TransferErrorV> {
    if transfers.contains_key(token) {
        Some(
            TransferErrorV::Sequence(about("Duplicate start frame for active transfer"@, token)),
        )
    } else if total_bytes > policy.max_transfer_bytes {
        Some(
            TransferErrorV::Policy(
                about(
                    with_numbers(
                        "totalBytes "@,
                        total_bytes as nat,
                        " exceeds policy limit "@,
                        policy.max_transfer_bytes as nat,
                        ""@,
                    ),
                    token,
                ),
            ),
        )
    } else if total_chunks > policy.max_transfer_chunks {
        Some(
            TransferErrorV::Policy(
                about(
                    with_numbers(
                        "totalChunks "@,
                        total_chunks as nat,
                        " exceeds policy limit "@,
                        policy.max_transfer_chunks as nat,
                        ""@,
                    ),
                    token,
                ),
            ),
        )
    } else if transfers.len() >= policy.max_concurrent_transfers {
        Some(
            TransferErrorV::Policy(
                about(
                    with_limit(
                        "Active transfers exceed policy limit "@,
                        policy.max_concurrent_transfers as nat,
                    ),
                    token,
                ),
            ),
        )
    } else if !has_digest_prefix(digest) {
        Some(TransferErrorV::Reassembly(about("Invalid digest format in start frame"@, token)))
    } else {
        None
    }
}

/// A transfer as it is admitted.
pub open spec fn fresh_transfer(
    progress: u64,
    digest: Seq<char>,
    total_bytes: u64,
    total_chunks: u64,
    now: u64,
) -> TransferV {
    TransferV {
        digest,
        total_bytes,
        total_chunks,
        start: progress,
        accept: None,
        first: None,
        next: None,
        highest: progress,
        chunks: Map::empty(),
        admitted_at: now,
    }
}

/// What an `accept` frame makes of a transfer.
pub open spec fn accept_verdict(t: TransferV, token: Seq<char>, progress: u64) -> Result<
    TransferV,
    TransferErrorV,
> {
    if progress <= t.start {
        Err(
            TransferErrorV::Sequence(
                about("Accept frame progress must be greater than start progress"@, token),
            ),
        )
    } else {
        Ok(
            TransferV {
                accept: Some(progress),
                highest: if progress > t.highest {
                    progress
                } else {
                    t.highest
                },
                ..t
            },
        )
    }
}

/// What a `chunk` frame makes of a transfer.
pub open spec fn chunk_verdict(
    t: TransferV,
    policy: TransferPolicy,
    token: Seq<char>,
    progress: u64,
    data: Seq<char>,
) -> Result<TransferV, TransferErrorV> {
    let gap = progress - t.expected();
    if progress < t.start + 1 {
        Err(
            TransferErrorV::Sequence(
                about("Chunk progress must be greater than start progress"@, token),
            ),
        )
    } else if gap > policy.max_out_of_order_window {
        Err(
            TransferErrorV::Policy(
                about(
                    with_numbers(
                        "Out-of-order gap "@,
                        gap as nat,
                        " exceeds policy limit "@,
                        policy.max_out_of_order_window as nat,
                        ""@,
                    ),
                    token,
                ),
            ),
        )
    } else if progress > t.start + t.total_chunks + 1 {
        Err(
            TransferErrorV::Sequence(
                about("Chunk progress exceeds declared transfer bounds"@, token),
            ),
        )
    } else if progress > t.start + 2 && !has_chunk(t.chunks, t.start + 1) && !has_chunk(
        t.chunks,
        t.start + 2,
    ) {
        Err(
            TransferErrorV::Sequence(
                about("First chunk skips beyond the reserved accept slot"@, token),
            ),
        )
    } else if t.chunks.contains_key(progress) {
        if t.chunks[progress] != data {
            Err(TransferErrorV::Sequence(conflicting_chunk(token, progress)))
        } else {
            Ok(t)
        }
    } else {
        let after = t.with_chunk(progress, data);
        if gap > 0 && after.out_of_order() > policy.max_out_of_order_chunks {
            Err(
                TransferErrorV::Policy(
                    about(
                        with_limit(
                            "Buffered out-of-order chunks exceed policy limit "@,
                            policy.max_out_of_order_chunks as nat,
                        ),
                        token,
                    ),
                ),
            )
        } else {
            Ok(after)
        }
    }
}

/// The message about two different chunks in one slot.
pub open spec fn conflicting_chunk(token: Seq<char>, progress: u64) -> Seq<char> {
    "Conflicting duplicate chunk detected (token: "@ + token + ", progress: "@ + decimal(
        progress as nat,
    ) + ")"@
}

/// What an `end` frame makes of a transfer.
pub open spec fn end_verdict(t: TransferV, token: Seq<char>, progress: u64) -> Outcome {
    if progress <= t.highest {
        Err(
            TransferErrorV::Sequence(
                about("End frame progress must be greater than all prior transfer frames"@, token),
            ),
        )
    } else if t.total_chunks > 0 && t.chunks.len() == 0 {
        Err(
            TransferErrorV::Reassembly(
                about("Transfer ended before any chunks were received"@, token),
            ),
        )
    } else if t.chunks.len() != t.total_chunks {
        Err(
            TransferErrorV::Reassembly(
                about(
                    with_numbers(
                        "Expected "@,
                        t.total_chunks as nat,
                        " chunks but received "@,
                        t.chunks.len(),
                        ""@,
                    ),
                    token,
                ),
            ),
        )
    } else {
        match t.assembled() {
            None => Err(
                TransferErrorV::Reassembly(
                    about("Transfer ended with unresolved chunk gaps"@, token),
                ),
            ),
            Some(text) => if encode_utf8(text).len() != t.total_bytes {
                Err(
                    TransferErrorV::Digest(
                        about(
                            with_numbers(
                                "Byte length mismatch: expected "@,
                                t.total_bytes as nat,
                                ", got "@,
                                encode_utf8(text).len(),
                                ""@,
                            ),
                            token,
                        ),
                    ),
                )
            } else if digest_of(text) != t.digest {
                Err(TransferErrorV::Digest(about("SHA-256 digest mismatch"@, token)))
            } else {
                Ok(Some(text))
            },
        }
    }
}

/// The progress of a frame: a positive integer.
pub open spec fn progress_of(v: Option<JsonV>) -> Option<u64> {
    match v {
        Some(JsonV::Number(NumberV::Unsigned(n))) => if n > 0 {
            Some(n)
        } else {
            None
        },
        Some(JsonV::Number(NumberV::Fraction { whole, positive, clamped_u64, .. })) => if whole
            && positive && clamped_u64 > 0 {
            Some(clamped_u64)
        } else {
            None
        },
        _ => None,
    }
}

/// The token of a frame; empty when it has none.
pub open spec fn token_of(n: NotificationV) -> Seq<char> {
    match param(n, "progressToken"@) {
        Some(v) => match token_text(v) {
            Some(t) => t,
            None => Seq::empty(),
        },
        None => Seq::empty(),
    }
}

/// What one frame with a valid token and progress does.
#[verifier::opaque]
pub open spec fn frame_step(
    transfers: Map<Seq<char>, TransferV>,
    policy: TransferPolicy,
    now: u64,
    frame: FrameV,
    token: Seq<char>,
    progress: u64,
) -> (Map<Seq<char>, TransferV>, Outcome) {
    match frame {
        FrameV::Start { digest, total_bytes, total_chunks, .. } => {
            match start_refusal(transfers, policy, token, digest, total_bytes, total_chunks) {
                Some(e) => (transfers, Err(e)),
                None => (
                    transfers.insert(
                        token,
                        fresh_transfer(progress, digest, total_bytes, total_chunks, now),
                    ),
                    Ok(None),
                ),
            }
        },
        FrameV::Accept => if !transfers.contains_key(token) {
            (transfers, Ok(None))
        } else {
            match accept_verdict(transfers[token], token, progress) {
                Ok(t) => (transfers.insert(token, t), Ok(None)),
                Err(e) => (transfers.remove(token), Err(e)),
            }
        },
        FrameV::Chunk { data } => if !transfers.contains_key(token) {
            (transfers, Ok(None))
        } else {
            match chunk_verdict(transfers[token], policy, token, progress, data) {
                Ok(t) => (transfers.insert(token, t), Ok(None)),
                Err(e) => (transfers.remove(token), Err(e)),
            }
        },
        FrameV::End => if !transfers.contains_key(token) {
            (transfers, Ok(None))
        } else {
            (transfers.remove(token), end_verdict(transfers[token], token, progress))
        },
        FrameV::Abort { reason } => (
            transfers.remove(token),
            Err(TransferErrorV::Abort { token, reason }),
        ),
    }
}

/// What one notification does: those without an oversized frame are ignored, and a frame needs
/// a token and a valid progress.
pub open spec fn step(
    transfers: Map<Seq<char>, TransferV>,
    policy: TransferPolicy,
    now: u64,
    n: NotificationV,
) -> (Map<Seq<char>, TransferV>, Outcome) {
    match frame_of(n) {
        None => (transfers, Ok(None)),
        Some(frame) => if token_of(n).len() == 0 {
            (
                transfers,
                Err(
                    TransferErrorV::Sequence("Oversized transfer frame is missing progressToken"@),
                ),
            )
        } else {
            match progress_of(param(n, "progress"@)) {
                None => (
                    transfers,
                    Err(TransferErrorV::Sequence(about("Invalid progress value"@, token_of(n)))),
                ),
                Some(progress) => frame_step(
                    transfers,
                    policy,
                    now,
                    frame,
                    token_of(n),
                    progress,
                ),
            }
        },
    }
}

/// One transfer in flight.
pub struct ActiveTransfer {
    digest: String,
    total_bytes: u64,
    total_chunks: u64,
    start_progress: u64,
    accept_progress: Option<u64>,
    first_chunk_progress: Option<u128>,
    next_expected_chunk_progress: Option<u128>,
    highest_observed_progress: u64,
    chunks: BTreeMap<u64, String>,
    admitted_at: u64,
}

/// The characters of each chunk.
pub open spec fn chunk_view(chunks: Map<u64, String>) -> Map<u64, Seq<char>> {
    Map::new(|p: u64| chunks.contains_key(p), |p: u64| chunks[p]@)
}

/// A position as a mathematical integer.
pub open spec fn opt_position(p: Option<u128>) -> Option<int> {
    match p {
        Some(x) => Some(x as int),
        None => None,
    }
}

impl View for ActiveTransfer {
    type V = TransferV;

    closed spec fn view(&self) -> TransferV {
        TransferV {
            digest: self.digest@,
            total_bytes: self.total_bytes,
            total_chunks: self.total_chunks,
            start: self.start_progress,
            accept: self.accept_progress,
            first: opt_position(self.first_chunk_progress),
            next: opt_position(self.next_expected_chunk_progress),
            highest: self.highest_observed_progress,
            chunks: chunk_view(self.chunks@),
            admitted_at: self.admitted_at,
        }
    }
}

proof fn chunk_view_len(chunks: Map<u64, String>)
    requires
        chunks.dom().finite(),
    ensures
        chunk_view(chunks).len() == chunks.len(),
        chunk_view(chunks).dom().finite(),
{
    assert(chunk_view(chunks).dom() =~= chunks.dom());
}

/// A run of `n` chunks means that there are at least `n` chunks.
pub proof fn run_len(chunks: Map<u64, Seq<char>>, first: int, n: nat)
    requires
        chunks.dom().finite(),
        is_run(chunks, first, n as int),
    ensures
        chunks.len() >= n,
    decreases n,
{
    if n > 0 {
        let last = first + n - 1;
        assert(has_chunk(chunks, last));
        let rest = chunks.remove(last as u64);
        assert forall|p: int| first <= p < first + (n - 1) implies has_chunk(rest, p) by {
            assert(has_chunk(chunks, p));
        }
        run_len(rest, first, (n - 1) as nat);
        assert(rest.dom() =~= chunks.dom().remove(last as u64));
    }
}

impl ActiveTransfer {
    /// Whether there is a chunk in slot `p`.
    fn has_chunk_at(&self, p: u128) -> (r: bool)
        ensures
            r == has_chunk(self@.chunks, p as int),
    {
        if p > u64::MAX as u128 {
            return false;
        }
        self.chunks.contains_key(&(p as u64))
    }

    /// Slot of the first chunk, given the handshake state.
    fn first_chunk_slot(&self) -> (r: u128)
        ensures
            r == self@.first_chunk_slot(),
    {
        if self.accept_progress.is_some() {
            self.start_progress as u128 + 2
        } else {
            self.start_progress as u128 + 1
        }
    }

    /// The next contiguous slot that is still missing.
    fn next_expected_chunk_progress(&self) -> (r: u128)
        ensures
            r == self@.expected(),
    {
        match self.next_expected_chunk_progress {
            Some(n) => n,
            None => self.first_chunk_slot(),
        }
    }

    /// Recomputes the contiguous run after a chunk has been added.
    fn refresh_chunk_progress_state(&mut self)
        ensures
            final(self)@ == (if old(self)@.chunks.len() == 0 {
                TransferV { first: None, next: None, ..old(self)@ }
            } else {
                TransferV {
                    first: Some(old(self)@.first_chunk_slot()),
                    next: Some(frontier(old(self)@.chunks, old(self)@.first_chunk_slot())),
                    ..old(self)@
                }
            }),
            old(self)@.chunks.len() > 0 ==> is_frontier(
                old(self)@.chunks,
                old(self)@.first_chunk_slot(),
                frontier(old(self)@.chunks, old(self)@.first_chunk_slot()),
            ),
            final(self).chunks == old(self).chunks,
    {
        proof {
            chunk_view_len(self.chunks@);
        }
        if self.chunks.len() == 0 {
            self.first_chunk_progress = None;
            self.next_expected_chunk_progress = None;
            return;
        }
        let first: u128 = self.first_chunk_slot();
        let mut next: u128 = first;
        while self.has_chunk_at(next)
            invariant
                first <= next <= u64::MAX + 2,
                forall|p: int| first <= p < next ==> has_chunk(self@.chunks, p),
            decreases u64::MAX + 3 - next,
        {
            next = next + 1;
        }
        proof {
            frontier_unique(self@.chunks, first as int, next as int);
        }
        self.first_chunk_progress = Some(first);
        self.next_expected_chunk_progress = Some(next);
    }

    /// How many buffered chunks lie outside the contiguous run.
    fn buffered_out_of_order_count(&self) -> (r: usize)
        requires
            self@.first is Some && self@.next is Some ==> is_frontier(
                self@.chunks,
                self@.first.unwrap(),
                self@.next.unwrap(),
            ),
        ensures
            r == self@.out_of_order(),
    {
        proof {
            chunk_view_len(self.chunks@);
        }
        match (self.first_chunk_progress, self.next_expected_chunk_progress) {
            (Some(first), Some(next)) => {
                proof {
                    run_len(self@.chunks, first as int, (next - first) as nat);
                }
                self.chunks.len() - (next - first) as usize
            },
            _ => 0,
        }
    }

    /// Whether every slot from `first` on, as many as there are chunks, is present.
    fn has_complete_chunk_range(&self, first: u128) -> (r: bool)
        requires
            first <= u64::MAX + 2,
        ensures
            r == is_run(self@.chunks, first as int, self@.total_chunks as int),
    {
        let mut i: u64 = 0;
        while i < self.total_chunks
            invariant
                i <= self.total_chunks,
                first <= u64::MAX + 2,
                forall|p: int| first <= p < first + i ==> has_chunk(self@.chunks, p),
            decreases self.total_chunks - i,
        {
            if !self.has_chunk_at(first + i as u128) {
                return false;
            }
            i = i + 1;
        }
        true
    }

    /// The first slot for assembly, with the reserved `accept` slot used or skipped.
    fn assembly_first_chunk_progress(&self) -> (r: Option<u128>)
        ensures
            opt_position(r) == self@.assembly_first(),
    {
        let direct: u128 = self.start_progress as u128 + 1;
        let accept_gated: u128 = self.start_progress as u128 + 2;
        if self.has_complete_chunk_range(direct) {
            Some(direct)
        } else if self.has_complete_chunk_range(accept_gated) {
            Some(accept_gated)
        } else {
            None
        }
    }

    /// The chunks put together in order; nothing if one is missing.
    fn assemble(&self) -> (r: Option<String>)
        ensures
            opt_text(r) == self@.assembled(),
    {
        let first: u128 = match self.assembly_first_chunk_progress() {
            Some(first) => first,
            None => {
                return None;
            },
        };
        let ghost parts = run_of(self@.chunks, first as int, self@.total_chunks as nat);
        let mut out = String::new();
        let mut i: u64 = 0;
        assert(parts.take(0) =~= Seq::<Seq<char>>::empty());
        while i < self.total_chunks
            invariant
                i <= self.total_chunks,
                first <= u64::MAX + 2,
                is_run(self@.chunks, first as int, self@.total_chunks as int),
                parts == run_of(self@.chunks, first as int, self@.total_chunks as nat),
                self.assembly_first_spec() == Some(first as int),
                out@ == concat(parts.take(i as int)),
            decreases self.total_chunks - i,
        {
            assert(has_chunk(self@.chunks, first + i));
            match self.chunks.get(&((first + i as u128) as u64)) {
                Some(piece) => {
                    out.append(piece.as_str());
                },
                None => {
                    return None;
                },
            }
            assert(parts.take(i + 1).drop_last() =~= parts.take(i as int));
            i = i + 1;
        }
        assert(parts.take(i as int) =~= parts);
        Some(out)
    }

    spec fn assembly_first_spec(&self) -> Option<int> {
        self@.assembly_first()
    }

    /// Takes an `accept` frame.
    fn accepted(self, token: &str, progress: u64) -> (r: Result<Self, OversizedTransferError>)
        ensures
            match r {
                Ok(t) => accept_verdict(self@, token@, progress) == Ok::<TransferV, TransferErrorV>(t@),
                Err(e) => accept_verdict(self@, token@, progress) == Err::<TransferV, TransferErrorV>(
                    e@,
                ),
            },
    {
        if progress <= self.start_progress {
            return Err(
                OversizedTransferError::Sequence(
                    about_text("Accept frame progress must be greater than start progress", token),
                ),
            );
        }
        let mut transfer = self;
        if progress > transfer.highest_observed_progress {
            transfer.highest_observed_progress = progress;
        }
        transfer.accept_progress = Some(progress);
        Ok(transfer)
    }

    /// Takes a `chunk` frame.
    fn chunked(self, policy: &TransferPolicy, token: &str, progress: u64, data: String) -> (r: Result<
        Self,
        OversizedTransferError,
    >)
        ensures
            match r {
                Ok(t) => chunk_verdict(self@, *policy, token@, progress, data@) == Ok::<
                    TransferV,
                    TransferErrorV,
                >(t@),
                Err(e) => chunk_verdict(self@, *policy, token@, progress, data@) == Err::<
                    TransferV,
                    TransferErrorV,
                >(e@),
            },
    {
        let start: u128 = self.start_progress as u128;
        let at: u128 = progress as u128;
        if at < start + 1 {
            return Err(
                OversizedTransferError::Sequence(
                    about_text("Chunk progress must be greater than start progress", token),
                ),
            );
        }
        let expected: u128 = self.next_expected_chunk_progress();
        let gap: u128 = if at > expected {
            at - expected
        } else {
            0
        };
        if gap > policy.max_out_of_order_window as u128 {
            let message = with_numbers_text(
                "Out-of-order gap ",
                gap as u64,
                " exceeds policy limit ",
                policy.max_out_of_order_window,
                "",
            );
            return Err(OversizedTransferError::Policy(about_text(message.as_str(), token)));
        }
        if at > start + self.total_chunks as u128 + 1 {
            return Err(
                OversizedTransferError::Sequence(
                    about_text("Chunk progress exceeds declared transfer bounds", token),
                ),
            );
        }
        if at > start + 2 && !self.has_chunk_at(start + 1) && !self.has_chunk_at(start + 2) {
            return Err(
                OversizedTransferError::Sequence(
                    about_text("First chunk skips beyond the reserved accept slot", token),
                ),
            );
        }
        if let Some(existing) = self.chunks.get(&progress) {
            if !same_text(existing.as_str(), data.as_str()) {
                let mut message = "Conflicting duplicate chunk detected (token: ".to_owned();
                message.append(token);
                message.append(", progress: ");
                message.append(decimal_text(progress).as_str());
                message.append(")");
                return Err(OversizedTransferError::Sequence(message));
            }
            return Ok(self);
        }
        let ghost before = self@;
        let mut transfer = self;
        transfer.chunks.insert(progress, data);
        if progress > transfer.highest_observed_progress {
            transfer.highest_observed_progress = progress;
        }
        proof {
            chunk_view_len(transfer.chunks@);
            assert(chunk_view(transfer.chunks@) =~= before.chunks.insert(progress, data@));
            assert(transfer.chunks@.contains_key(progress));
            assert(transfer@.chunks.len() > 0) by {
                if transfer.chunks@.dom().len() == 0 {
                    assert(transfer.chunks@.dom() =~= Set::<u64>::empty());
                }
            }
        }
        transfer.refresh_chunk_progress_state();
        assert(transfer@ == before.with_chunk(progress, data@));
        if gap > 0 && transfer.buffered_out_of_order_count() > policy.max_out_of_order_chunks {
            let message = with_limit_text(
                "Buffered out-of-order chunks exceed policy limit ",
                policy.max_out_of_order_chunks as u64,
            );
            return Err(OversizedTransferError::Policy(about_text(message.as_str(), token)));
        }
        Ok(transfer)
    }

    /// Takes an `end` frame: the payload, checked against what `start` declared.
    fn ended(self, token: &str, progress: u64) -> (r: Result<
        Option<String>,
        OversizedTransferError,
    >)
        ensures
            outcome_of(r) == end_verdict(self@, token@, progress),
    {
        proof {
            chunk_view_len(self.chunks@);
        }
        if progress <= self.highest_observed_progress {
            return Err(
                OversizedTransferError::Sequence(
                    about_text(
                        "End frame progress must be greater than all prior transfer frames",
                        token,
                    ),
                ),
            );
        }
        if self.total_chunks > 0 && self.chunks.len() == 0 {
            return Err(
                OversizedTransferError::Reassembly(
                    about_text("Transfer ended before any chunks were received", token),
                ),
            );
        }
        if self.chunks.len() as u64 != self.total_chunks {
            let message = with_numbers_text(
                "Expected ",
                self.total_chunks,
                " chunks but received ",
                self.chunks.len() as u64,
                "",
            );
            return Err(OversizedTransferError::Reassembly(about_text(message.as_str(), token)));
        }
        let assembled = match self.assemble() {
            Some(text) => text,
            None => {
                return Err(
                    OversizedTransferError::Reassembly(
                        about_text("Transfer ended with unresolved chunk gaps", token),
                    ),
                );
            },
        };
        let length: u64 = utf8_byte_len(assembled.as_str()) as u64;
        if length != self.total_bytes {
            let message = with_numbers_text(
                "Byte length mismatch: expected ",
                self.total_bytes,
                ", got ",
                length,
                "",
            );
            return Err(OversizedTransferError::Digest(about_text(message.as_str(), token)));
        }
        if !same_text(sha256_digest(assembled.as_str()).as_str(), self.digest.as_str()) {
            return Err(
                OversizedTransferError::Digest(about_text("SHA-256 digest mismatch", token)),
            );
        }
        Ok(Some(assembled))
    }
}

/// The model of an outcome.
pub open spec fn outcome_of(r: Result<Option<String>, OversizedTransferError>) -> Outcome {
    match r {
        Ok(text) => Ok(opt_text(text)),
        Err(e) => Err(e@),
    }
}

/// Reassembles oversized transfers, keyed by progress token.
pub struct OversizedTransferReceiver {
    policy: TransferPolicy,
    transfers: TextMap<ActiveTransfer>,
}

/// Model of [`OversizedTransferReceiver`].
pub struct ReceiverV {
    /// The limits.
    pub policy: TransferPolicy,
    /// The transfers in flight by token.
    pub transfers: Map<Seq<char>, TransferV>,
}

/// The models of the transfers in flight.
pub open spec fn transfers_view(m: Map<Seq<char>, ActiveTransfer>) -> Map<Seq<char>, TransferV> {
    Map::new(|k: Seq<char>| m.contains_key(k), |k: Seq<char>| m[k]@)
}

impl View for OversizedTransferReceiver {
    type V = ReceiverV;

    closed spec fn view(&self) -> ReceiverV {
        ReceiverV { policy: self.policy, transfers: transfers_view(self.transfers@) }
    }
}

impl Default for OversizedTransferReceiver {
    fn default() -> (r: Self)
        ensures
            r@.transfers == Map::<Seq<char>, TransferV>::empty(),
            r@.policy.max_transfer_bytes == DEFAULT_MAX_TRANSFER_BYTES,
            r@.policy.max_transfer_chunks == DEFAULT_MAX_TRANSFER_CHUNKS,
            r@.policy.max_concurrent_transfers == DEFAULT_MAX_CONCURRENT_TRANSFERS,
            r@.policy.max_out_of_order_window == DEFAULT_MAX_OUT_OF_ORDER_WINDOW,
            r@.policy.max_out_of_order_chunks == DEFAULT_MAX_OUT_OF_ORDER_CHUNKS,
            r@.policy.transfer_timeout_ms == DEFAULT_TRANSFER_TIMEOUT_MS,
    {
        OversizedTransferReceiver::new()
    }
}

/// Whether a transfer admitted at `admitted_at` is past its deadline.
pub open spec fn is_expired(policy: TransferPolicy, admitted_at: u64, now: u64) -> bool {
    policy.transfer_timeout_ms != 0 && now - admitted_at > policy.transfer_timeout_ms
}

impl OversizedTransferReceiver {
    /// Finitely many transfers are in flight, and each of them holds finitely many chunks.
    pub proof fn is_finite(&self)
        ensures
            self@.transfers.dom().finite(),
            forall|k: Seq<char>| #[trigger]
                self@.transfers.contains_key(k) ==> self@.transfers[k].chunks.dom().finite(),
    {
        self.transfers.is_finite();
        assert(self@.transfers.dom() =~= self.transfers@.dom());
        assert forall|k: Seq<char>| #[trigger]
            self@.transfers.contains_key(k) implies self@.transfers[k].chunks.dom().finite() by {
            let chunks = self.transfers@[k].chunks@;
            assert(chunks.dom().finite());
            assert(self@.transfers[k].chunks.dom() =~= chunks.dom());
        }
    }

    /// A receiver with the default policy.
    pub fn new() -> (r: Self)
        ensures
            r@.transfers == Map::<Seq<char>, TransferV>::empty(),
            r@.policy.max_transfer_bytes == DEFAULT_MAX_TRANSFER_BYTES,
            r@.policy.max_transfer_chunks == DEFAULT_MAX_TRANSFER_CHUNKS,
            r@.policy.max_concurrent_transfers == DEFAULT_MAX_CONCURRENT_TRANSFERS,
            r@.policy.max_out_of_order_window == DEFAULT_MAX_OUT_OF_ORDER_WINDOW,
            r@.policy.max_out_of_order_chunks == DEFAULT_MAX_OUT_OF_ORDER_CHUNKS,
            r@.policy.transfer_timeout_ms == DEFAULT_TRANSFER_TIMEOUT_MS,
    {
        OversizedTransferReceiver::with_policy(TransferPolicy::default())
    }

    /// A receiver with the given policy.
    pub fn with_policy(policy: TransferPolicy) -> (r: Self)
        ensures
            r@ == (ReceiverV { policy, transfers: Map::empty() }),
    {
        let r = OversizedTransferReceiver { policy, transfers: TextMap::new() };
        assert(r@.transfers =~= Map::<Seq<char>, TransferV>::empty());
        r
    }

    /// Number of transfers in flight.
    pub fn active_transfer_count(&self) -> (r: usize)
        ensures
            r == self@.transfers.len(),
            self@.transfers.dom().finite(),
    {
        assert(self@.transfers.dom() =~= self.transfers@.dom());
        self.transfers.len()
    }

    /// Whether the transfer `token` is in flight.
    pub fn is_tracking(&self, token: &str) -> (r: bool)
        ensures
            r == self@.transfers.contains_key(token@),
    {
        self.transfers.contains_key(token)
    }

    /// Drops the transfers that are past their deadline at `now` and returns their tokens. The
    /// deadline counts from admission and is not extended by later frames.
    pub fn remove_expired(&mut self, now: u64) -> (r: Vec<String>)
        ensures
            final(self)@.policy == old(self)@.policy,
            texts(r@).no_duplicates(),
            forall|k: Seq<char>| #[trigger]
                texts(r@).contains(k) <==> old(self)@.transfers.contains_key(k) && is_expired(
                    old(self)@.policy,
                    old(self)@.transfers[k].admitted_at,
                    now,
                ),
            final(self)@.transfers == old(self)@.transfers.remove_keys(texts(r@).to_set()),
    {
        let mut reaped: Vec<String> = Vec::new();
        let ghost start = self@.transfers;
        if self.policy.transfer_timeout_ms == 0 {
            assert(texts(reaped@).to_set() =~= Set::<Seq<char>>::empty());
            assert(start.remove_keys(Set::<Seq<char>>::empty()) =~= start);
            return reaped;
        }
        let keys = self.transfers.keys();
        let ghost names = texts(keys@);
        let mut i: usize = 0;
        assert(start.remove_keys(texts(reaped@).to_set()) =~= start);
        while i < keys.len()
            invariant
                i <= keys@.len(),
                names == texts(keys@),
                names.no_duplicates(),
                names.to_set() == start.dom(),
                self@.policy == old(self)@.policy,
                self@.policy.transfer_timeout_ms != 0,
                self@.transfers == start.remove_keys(texts(reaped@).to_set()),
                texts(reaped@).no_duplicates(),
                forall|k: Seq<char>| #[trigger]
                    texts(reaped@).contains(k) ==> start.contains_key(k) && is_expired(
                        self@.policy,
                        start[k].admitted_at,
                        now,
                    ) && names.take(i as int).contains(k),
                forall|j: int|
                    0 <= j < i && is_expired(self@.policy, start[names[j]].admitted_at, now)
                        ==> texts(reaped@).contains(#[trigger] names[j]),
            decreases keys@.len() - i,
        {
            let ghost k = names[i as int];
            let ghost done = texts(reaped@);
            proof {
                assert(k == keys@[i as int]@);
                assert(names.contains(k));
                assert(names.to_set().contains(k));
                if done.contains(k) {
                    let j = names.take(i as int).index_of(k);
                    assert(names.take(i as int).contains(k));
                    assert(names.take(i as int)[j] == k);
                    assert(names[j] == names[i as int]);
                    assert(false);
                }
                assert(names.take(i + 1) =~= names.take(i as int).push(k));
                assert forall|q: Seq<char>| names.take(i as int).contains(q) implies names.take(
                    i + 1,
                ).contains(q) by {
                    let j = names.take(i as int).index_of(q);
                    assert(names.take(i + 1)[j] == q);
                }
                assert(names.take(i + 1)[i as int] == k);
            }
            let expired = match self.transfers.get(keys[i].as_str()) {
                Some(t) => {
                    assert(self@.transfers.contains_key(k));
                    assert(self@.transfers[k] == t@);
                    assert(start.remove_keys(done.to_set())[k] == start[k]);
                    now > t.admitted_at && now - t.admitted_at > self.policy.transfer_timeout_ms
                },
                None => {
                    assert(self@.transfers.contains_key(k));
                    false
                },
            };
            assert(expired == is_expired(self@.policy, start[k].admitted_at, now));
            if expired {
                let ghost before = self@.transfers;
                let _ = self.transfers.remove(keys[i].as_str());
                reaped.push(keys[i].clone());
                proof {
                    assert(texts(reaped@) =~= done.push(k));
                    assert(self@.transfers =~= before.remove(k));
                    assert forall|q: Seq<char>| texts(reaped@).to_set().contains(q) == (
                    done.to_set().contains(q) || q == k) by {
                        if done.contains(q) {
                            let j = done.index_of(q);
                            assert(texts(reaped@)[j] == q);
                        }
                        assert(texts(reaped@)[done.len() as int] == k);
                    }
                    assert(before.contains_key(k));
                    assert(self@.transfers =~= start.remove_keys(texts(reaped@).to_set()));
                    assert forall|q: Seq<char>| #[trigger]
                        texts(reaped@).contains(q) implies start.contains_key(q) && is_expired(
                        self@.policy,
                        start[q].admitted_at,
                        now,
                    ) && names.take(i + 1).contains(q) by {
                        assert(texts(reaped@).to_set().contains(q));
                        if q != k {
                            assert(done.contains(q));
                        }
                    }
                    assert forall|j: int|
                        0 <= j < i + 1 && is_expired(
                            self@.policy,
                            start[names[j]].admitted_at,
                            now,
                        ) implies texts(reaped@).contains(#[trigger] names[j]) by {
                        if j < i {
                            assert(done.contains(names[j]));
                            let x = done.index_of(names[j]);
                            assert(texts(reaped@)[x] == names[j]);
                        } else {
                            assert(texts(reaped@)[done.len() as int] == k);
                        }
                    }
                }
            }
            i = i + 1;
        }
        proof {
            assert forall|k: Seq<char>|
                start.contains_key(k) && is_expired(
                    self@.policy,
                    start[k].admitted_at,
                    now,
                ) implies texts(reaped@).contains(k) by {
                assert(names.to_set().contains(k));
                let j = names.index_of(k);
                assert(names[j] == k);
            }
        }
        reaped
    }

    /// Drops every transfer.
    pub fn clear(&mut self)
        ensures
            final(self)@ == (ReceiverV { transfers: Map::empty(), ..old(self)@ }),
    {
        self.transfers.clear();
        assert(self@.transfers =~= Map::<Seq<char>, TransferV>::empty());
    }

    /// Whether the notification carries something of the shape of an oversized frame.
    pub fn is_oversized_frame(notification: &JsonRpcNotification) -> (r: bool)
        ensures
            r == looks_oversized(notification@),
    {
        match &notification.params {
            Some(params) => match params.get("cvm") {
                Some(cvm) => OversizedFrame::is_frame_value(cvm),
                None => false,
            },
            None => false,
        }
    }

    /// Takes one inbound notification at time `now`. The result is the payload of a transfer
    /// that this frame completes, nothing when more frames are needed or the notification holds
    /// no frame, or the failure; a transfer that fails or is aborted is dropped.
    pub fn process_frame(&mut self, now: u64, notification: &JsonRpcNotification) -> (r: Result<
        Option<String>,
        OversizedTransferError,
    >)
        ensures
            final(self)@.policy == old(self)@.policy,
            (final(self)@.transfers, outcome_of(r)) == step(
                old(self)@.transfers,
                old(self)@.policy,
                now,
                notification@,
            ),
    {
        proof {
            reveal(frame_step);
        }
        let params = match &notification.params {
            Some(params) => params,
            None => {
                return Ok(None);
            },
        };
        let cvm = match params.get("cvm") {
            Some(cvm) => cvm,
            None => {
                return Ok(None);
            },
        };
        let frame = match OversizedFrame::from_cvm_value(cvm) {
            Some(frame) => frame,
            None => {
                return Ok(None);
            },
        };
        let token = token_to_string(params.get("progressToken"));
        if let Err(e) = assert_valid_token(token.as_str()) {
            return Err(e);
        }
        let progress: u64 = match parse_progress(params.get("progress"), token.as_str()) {
            Ok(progress) => progress,
            Err(e) => {
                return Err(e);
            },
        };
        match frame {
            OversizedFrame::Start { completion_mode: _, digest, total_bytes, total_chunks } => {
                self.handle_start(now, token, progress, digest, total_bytes, total_chunks)
            },
            OversizedFrame::Accept => self.handle_accept(token, progress),
            OversizedFrame::Chunk { data } => self.handle_chunk(token, progress, data),
            OversizedFrame::End => self.handle_end(token, progress),
            OversizedFrame::Abort { reason } => self.handle_abort(token, reason),
        }
    }

    fn handle_start(
        &mut self,
        now: u64,
        token: String,
        progress: u64,
        digest: String,
        total_bytes: u64,
        total_chunks: u64,
    ) -> (r: Result<Option<String>, OversizedTransferError>)
        ensures
            final(self)@.policy == old(self)@.policy,
            match start_refusal(
                old(self)@.transfers,
                old(self)@.policy,
                token@,
                digest@,
                total_bytes,
                total_chunks,
            ) {
                Some(e) => final(self)@.transfers == old(self)@.transfers && outcome_of(r) == Err::<
                    Option<Seq<char>>,
                    TransferErrorV,
                >(e),
                None => final(self)@.transfers == old(self)@.transfers.insert(
                    token@,
                    fresh_transfer(progress, digest@, total_bytes, total_chunks, now),
                ) && outcome_of(r) == Ok::<Option<Seq<char>>, TransferErrorV>(None),
            },
    {
        if self.transfers.contains_key(token.as_str()) {
            return Err(
                OversizedTransferError::Sequence(
                    about_text("Duplicate start frame for active transfer", token.as_str()),
                ),
            );
        }
        if total_bytes > self.policy.max_transfer_bytes {
            let message = with_numbers_text(
                "totalBytes ",
                total_bytes,
                " exceeds policy limit ",
                self.policy.max_transfer_bytes,
                "",
            );
            return Err(OversizedTransferError::Policy(about_text(message.as_str(), token.as_str())));
        }
        if total_chunks > self.policy.max_transfer_chunks {
            let message = with_numbers_text(
                "totalChunks ",
                total_chunks,
                " exceeds policy limit ",
                self.policy.max_transfer_chunks,
                "",
            );
            return Err(OversizedTransferError::Policy(about_text(message.as_str(), token.as_str())));
        }
        if self.active_transfer_count() >= self.policy.max_concurrent_transfers {
            let message = with_limit_text(
                "Active transfers exceed policy limit ",
                self.policy.max_concurrent_transfers as u64,
            );
            return Err(OversizedTransferError::Policy(about_text(message.as_str(), token.as_str())));
        }
        if !starts_with_digest_prefix(digest.as_str()) {
            return Err(
                OversizedTransferError::Reassembly(
                    about_text("Invalid digest format in start frame", token.as_str()),
                ),
            );
        }
        let ghost before = self@.transfers;
        let transfer = ActiveTransfer {
            digest,
            total_bytes,
            total_chunks,
            start_progress: progress,
            accept_progress: None,
            first_chunk_progress: None,
            next_expected_chunk_progress: None,
            highest_observed_progress: progress,
            chunks: BTreeMap::new(),
            admitted_at: now,
        };
        assert(transfer@.chunks =~= Map::<u64, Seq<char>>::empty());
        assert(transfer@ == fresh_transfer(progress, digest@, total_bytes, total_chunks, now));
        let ghost name = token@;
        let _ = self.transfers.insert(token, transfer);
        assert(self@.transfers =~= before.insert(name, transfer@));
        Ok(None)
    }

    fn handle_accept(&mut self, token: String, progress: u64) -> (r: Result<
        Option<String>,
        OversizedTransferError,
    >)
        ensures
            final(self)@.policy == old(self)@.policy,
            (final(self)@.transfers, outcome_of(r)) == frame_step(
                old(self)@.transfers,
                old(self)@.policy,
                0,
                FrameV::Accept,
                token@,
                progress,
            ),
    {
        proof {
            reveal(frame_step);
        }
        let ghost before = self@.transfers;
        match self.transfers.remove(token.as_str()) {
            Some(transfer) => {
                assert(self@.transfers =~= before.remove(token@));
                match transfer.accepted(token.as_str(), progress) {
                    Ok(t) => {
                        let ghost name = token@;
                        let _ = self.transfers.insert(token, t);
                        assert(self@.transfers =~= before.insert(name, t@));
                        Ok(None)
                    },
                    Err(e) => Err(e),
                }
            },
            None => {
                assert(self@.transfers =~= before);
                Ok(None)
            },
        }
    }

    fn handle_chunk(&mut self, token: String, progress: u64, data: String) -> (r: Result<
        Option<String>,
        OversizedTransferError,
    >)
        ensures
            final(self)@.policy == old(self)@.policy,
            (final(self)@.transfers, outcome_of(r)) == frame_step(
                old(self)@.transfers,
                old(self)@.policy,
                0,
                FrameV::Chunk { data: data@ },
                token@,
                progress,
            ),
    {
        proof {
            reveal(frame_step);
        }
        let ghost before = self@.transfers;
        match self.transfers.remove(token.as_str()) {
            Some(transfer) => {
                assert(self@.transfers =~= before.remove(token@));
                match transfer.chunked(&self.policy, token.as_str(), progress, data) {
                    Ok(t) => {
                        let ghost name = token@;
                        let _ = self.transfers.insert(token, t);
                        assert(self@.transfers =~= before.insert(name, t@));
                        Ok(None)
                    },
                    Err(e) => Err(e),
                }
            },
            None => {
                assert(self@.transfers =~= before);
                Ok(None)
            },
        }
    }

    fn handle_end(&mut self, token: String, progress: u64) -> (r: Result<
        Option<String>,
        OversizedTransferError,
    >)
        ensures
            final(self)@.policy == old(self)@.policy,
            (final(self)@.transfers, outcome_of(r)) == frame_step(
                old(self)@.transfers,
                old(self)@.policy,
                0,
                FrameV::End,
                token@,
                progress,
            ),
    {
        proof {
            reveal(frame_step);
        }
        let ghost before = self@.transfers;
        match self.transfers.remove(token.as_str()) {
            Some(transfer) => {
                assert(self@.transfers =~= before.remove(token@));
                transfer.ended(token.as_str(), progress)
            },
            None => {
                assert(self@.transfers =~= before);
                Ok(None)
            },
        }
    }

    fn handle_abort(&mut self, token: String, reason: Option<String>) -> (r: Result<
        Option<String>,
        OversizedTransferError,
    >)
        ensures
            final(self)@.policy == old(self)@.policy,
            (final(self)@.transfers, outcome_of(r)) == frame_step(
                old(self)@.transfers,
                old(self)@.policy,
                0,
                FrameV::Abort { reason: opt_text(reason) },
                token@,
                0,
            ),
    {
        proof {
            reveal(frame_step);
        }
        let ghost before = self@.transfers;
        let _ = self.transfers.remove(token.as_str());
        assert(self@.transfers =~= before.remove(token@));
        Err(OversizedTransferError::abort(token, reason))
    }
}

/// The text of a progress token; empty when there is none.
fn token_to_string(value: Option<&Json>) -> (r: String)
    ensures
        r@ == match opt_json_ref(value) {
            Some(v) => match token_text(v) {
                Some(t) => t,
                None => Seq::empty(),
            },
            None => Seq::empty(),
        },
{
    match value {
        Some(v) => match progress_token_string(v) {
            Some(t) => t,
            None => String::new(),
        },
        None => String::new(),
    }
}

/// Every frame needs a token.
fn assert_valid_token(token: &str) -> (r: Result<(), OversizedTransferError>)
    ensures
        r is Ok <==> token@.len() > 0,
        r matches Err(e) ==> e@ == TransferErrorV::Sequence(
            "Oversized transfer frame is missing progressToken"@,
        ),
{
    if token.is_empty() {
        return Err(
            OversizedTransferError::Sequence(
                "Oversized transfer frame is missing progressToken".to_owned(),
            ),
        );
    }
    Ok(())
}

/// The progress of a frame: a positive integer.
fn parse_progress(value: Option<&Json>, token: &str) -> (r: Result<u64, OversizedTransferError>)
    ensures
        match r {
            Ok(p) => progress_of(opt_json_ref(value)) == Some(p),
            Err(e) => progress_of(opt_json_ref(value)) is None && e@ == TransferErrorV::Sequence(
                about("Invalid progress value"@, token@),
            ),
        },
{
    let progress = match value {
        Some(Json::Number(Number::Unsigned(n))) => Some(*n),
        Some(Json::Number(Number::Fraction(f))) => if f.whole && f.positive {
            Some(f.clamped_u64)
        } else {
            None
        },
        _ => None,
    };
    match progress {
        Some(p) => {
            if p > 0 {
                return Ok(p);
            }
        },
        None => {},
    }
    Err(OversizedTransferError::Sequence(about_text("Invalid progress value", token)))
}

fn starts_with_digest_prefix(text: &str) -> (r: bool)
    ensures
        r == has_digest_prefix(text@),
{
    let n: usize = DIGEST_PREFIX.unicode_len();
    if text.unicode_len() < n {
        return false;
    }
    same_text(text.substring_char(0, n), DIGEST_PREFIX)
}

/// What a reassembled payload of the transfer `token` becomes once it has been parsed: the
/// message or, where it is no JSON-RPC message, a failure.
pub fn surface_message(token: &str, parsed: Option<JsonRpcMessage>) -> (r: Result<
    JsonRpcMessage,
    OversizedTransferError,
>)
    ensures
        match parsed {
            Some(m) => r == Ok::<JsonRpcMessage, OversizedTransferError>(m),
            None => r matches Err(e) && e@ == TransferErrorV::Reassembly(
                about("Reassembled payload is not a valid JSON-RPC message"@, token@),
            ),
        },
{
    match parsed {
        Some(m) => Ok(m),
        None => Err(
            OversizedTransferError::Reassembly(
                about_text("Reassembled payload is not a valid JSON-RPC message", token),
            ),
        ),
    }
}

} // verus!
