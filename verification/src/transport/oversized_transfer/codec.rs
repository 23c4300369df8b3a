//! Splitting a payload into chunks and building the frames that carry it.

use vstd::prelude::*;
use vstd::string::*;
use vstd::utf8::*;

use nostr_sdk::hashes::sha256;

use super::constants::{DEFAULT_CHUNK_SIZE, DIGEST_PREFIX, START_PROGRESS};
use super::errors::{OversizedTransferError, TransferErrorV};
use super::frame::{progress_notification, CompletionMode, FrameV, OversizedFrame};
use crate::message::{JsonRpcNotification, NotificationV};
use crate::text::{join2, texts};

verus! {

/// The lowercase hexadecimal SHA-256 of some bytes.
pub uninterp spec fn sha256_hex(bytes: Seq<u8>) -> Seq<char>;

/// Calls `bitcoin_hashes::sha256::Hash::hash`, re-exported by `nostr_sdk`, and renders the hash
/// with its `Display`: two lowercase hexadecimal digits for each of the 32 bytes, in order. The
/// result is a function of the bytes alone; the hash function itself is not spelled out.
#[verifier::external_body]
fn sha256_hex_of(bytes: &[u8]) -> (r: String)
    ensures
        r@ == sha256_hex(bytes@),
{
    <sha256::Hash as nostr_sdk::hashes::Hash>::hash(bytes).to_string()
}

/// The digest of a payload, as a `start` frame declares it.
pub open spec fn digest_of(text: Seq<char>) -> Seq<char> {
    DIGEST_PREFIX@ + sha256_hex(encode_utf8(text))
}

/// Computes the digest of a payload.
pub fn sha256_digest(text: &str) -> (r: String)
    ensures
        r@ == digest_of(text@),
{
    join2(DIGEST_PREFIX, sha256_hex_of(text.as_bytes()).as_str())
}

/// Length of a payload in bytes.
pub fn utf8_byte_len(text: &str) -> (r: usize)
    ensures
        r == encode_utf8(text@).len(),
{
    text.as_bytes().len()
}

/// Whether `m` is where the first chunk of at most `max` bytes ends: the last character boundary
/// within `max` bytes or, when the first character alone is longer, the end of that character.
pub open spec fn is_cut(bytes: Seq<u8>, max: int, m: int) -> bool {
    &&& 0 < m <= bytes.len()
    &&& is_char_boundary(bytes, m)
    &&& m <= max ==> forall|q: int| m < q <= max && q <= bytes.len() ==> !is_char_boundary(bytes, q)
    &&& m > max ==> forall|q: int| 0 < q < m ==> !is_char_boundary(bytes, q)
}

/// Where the first chunk ends.
pub open spec fn cut(bytes: Seq<u8>, max: int) -> int {
    choose|m: int| is_cut(bytes, max, m)
}

/// The chunks of a payload.
pub open spec fn chunk_texts(text: Seq<char>, max: int) -> Seq<Seq<char>>
    decreases encode_utf8(text).len(),
{
    let bytes = encode_utf8(text);
    let m = cut(bytes, max);
    let rest = decode_utf8(bytes.subrange(m, bytes.len() as int));
    if bytes.len() == 0 || !is_cut(bytes, max, m) || encode_utf8(rest).len() >= bytes.len() {
        Seq::empty()
    } else {
        seq![decode_utf8(bytes.subrange(0, m))] + chunk_texts(rest, max)
    }
}

/// The pieces of text in order, as one text.
pub open spec fn concat(parts: Seq<Seq<char>>) -> Seq<char>
    decreases parts.len(),
{
    if parts.len() == 0 {
        Seq::empty()
    } else {
        concat(parts.drop_last()) + parts.last()
    }
}

proof fn concat_append(a: Seq<Seq<char>>, b: Seq<Seq<char>>)
    ensures
        concat(a + b) == concat(a) + concat(b),
    decreases b.len(),
{
    if b.len() == 0 {
        assert(a + b =~= a);
        assert(concat(a) + concat(b) =~= concat(a));
    } else {
        assert((a + b).drop_last() =~= a + b.drop_last());
        concat_append(a, b.drop_last());
        assert(concat(a + b) =~= concat(a) + concat(b));
    }
}

proof fn cut_unique(bytes: Seq<u8>, max: int, m: int)
    requires
        is_cut(bytes, max, m),
    ensures
        cut(bytes, max) == m,
{
    let c = cut(bytes, max);
    assert(is_cut(bytes, max, c));
    assert(is_char_boundary(bytes, c));
    assert(is_char_boundary(bytes, m));
}

proof fn cut_exists(bytes: Seq<u8>, max: int)
    requires
        valid_utf8(bytes),
        bytes.len() > 0,
    ensures
        is_cut(bytes, max, cut(bytes, max)),
{
    is_char_boundary_start_end_of_seq(bytes);
    let top = if max < bytes.len() { max } else { bytes.len() as int };
    let below = last_boundary(bytes, top);
    if below > 0 {
        last_boundary_is_last(bytes, top);
        assert(is_cut(bytes, max, below));
    } else {
        last_boundary_is_last(bytes, top);
        first_boundary_exists(bytes, 1);
        let f = first_boundary(bytes, 1);
        assert(is_cut(bytes, max, f));
    }
}

spec fn last_boundary(bytes: Seq<u8>, top: int) -> int
    decreases top,
{
    if top <= 0 {
        0
    } else if is_char_boundary(bytes, top) {
        top
    } else {
        last_boundary(bytes, top - 1)
    }
}

proof fn last_boundary_is_last(bytes: Seq<u8>, top: int)
    ensures
        ({
            let b = last_boundary(bytes, top);
            &&& b > 0 ==> b <= top && is_char_boundary(bytes, b)
            &&& b >= 0
            &&& forall|q: int| b < q <= top ==> !is_char_boundary(bytes, q)
        }),
    decreases top,
{
    if top > 0 && !is_char_boundary(bytes, top) {
        last_boundary_is_last(bytes, top - 1);
    }
}

spec fn first_boundary(bytes: Seq<u8>, from: int) -> int
    decreases bytes.len() - from,
{
    if from >= bytes.len() || is_char_boundary(bytes, from) {
        from
    } else {
        first_boundary(bytes, from + 1)
    }
}

proof fn first_boundary_exists(bytes: Seq<u8>, from: int)
    requires
        valid_utf8(bytes),
        0 <= from <= bytes.len(),
    ensures
        ({
            let b = first_boundary(bytes, from);
            &&& from <= b <= bytes.len()
            &&& is_char_boundary(bytes, b)
            &&& forall|q: int| from <= q < b ==> !is_char_boundary(bytes, q)
        }),
    decreases bytes.len() - from,
{
    is_char_boundary_start_end_of_seq(bytes);
    if from < bytes.len() && !is_char_boundary(bytes, from) {
        first_boundary_exists(bytes, from + 1);
    }
}

/// How a non-empty payload splits: into the text before the cut and the rest, whose encodings
/// are the two parts of the payload's own.
proof fn split_at_cut(text: Seq<char>, max: int)
    requires
        encode_utf8(text).len() > 0,
    ensures
        ({
            let bytes = encode_utf8(text);
            let m = cut(bytes, max);
            let head = decode_utf8(bytes.subrange(0, m));
            let rest = decode_utf8(bytes.subrange(m, bytes.len() as int));
            &&& is_cut(bytes, max, m)
            &&& text == head + rest
            &&& encode_utf8(head) == bytes.subrange(0, m)
            &&& encode_utf8(rest) == bytes.subrange(m, bytes.len() as int)
            &&& encode_utf8(rest).len() < bytes.len()
            &&& chunk_texts(text, max) == seq![head] + chunk_texts(rest, max)
        }),
{
    let bytes = encode_utf8(text);
    encode_utf8_valid_utf8(text);
    cut_exists(bytes, max);
    let m = cut(bytes, max);
    valid_utf8_split(bytes, m);
    decode_utf8_split(bytes, m);
    encode_utf8_decode_utf8(text);
    decode_utf8_encode_utf8(bytes.subrange(0, m));
    decode_utf8_encode_utf8(bytes.subrange(m, bytes.len() as int));
}

/// The chunks of a payload, put together in order, are the payload; none of them is empty, and
/// each is within the limit unless it is a single character.
pub proof fn chunks_reassemble(text: Seq<char>, max: int)
    ensures
        concat(chunk_texts(text, max)) == text,
        forall|i: int|
            #![trigger chunk_texts(text, max)[i]]
            0 <= i < chunk_texts(text, max).len() ==> chunk_texts(text, max)[i].len() > 0 && (
            encode_utf8(chunk_texts(text, max)[i]).len() <= max || forall|q: int|
                0 < q < encode_utf8(chunk_texts(text, max)[i]).len() ==> !is_char_boundary(
                    encode_utf8(chunk_texts(text, max)[i]),
                    q,
                )),
        chunk_texts(text, max).len() <= encode_utf8(text).len(),
    decreases encode_utf8(text).len(),
{
    let bytes = encode_utf8(text);
    if bytes.len() == 0 {
        encode_utf8_decode_utf8(text);
        assert(text =~= Seq::<char>::empty());
        assert(concat(chunk_texts(text, max)) =~= text);
    } else {
        split_at_cut(text, max);
        let m = cut(bytes, max);
        let head = decode_utf8(bytes.subrange(0, m));
        let rest = decode_utf8(bytes.subrange(m, bytes.len() as int));
        chunks_reassemble(rest, max);
        let parts = chunk_texts(text, max);
        concat_append(seq![head], chunk_texts(rest, max));
        assert(seq![head].drop_last() =~= Seq::<Seq<char>>::empty());
        assert(concat(seq![head]) =~= head) by {
            assert(concat(Seq::<Seq<char>>::empty()) =~= Seq::<char>::empty());
        }
        assert forall|i: int| #![trigger parts[i]] 0 <= i < parts.len() implies parts[i].len() > 0 && (encode_utf8(
            parts[i],
        ).len() <= max || forall|q: int|
            0 < q < encode_utf8(parts[i]).len() ==> !is_char_boundary(encode_utf8(parts[i]), q)) by {
            if i == 0 {
                assert(parts[0] == head);
                if head.len() == 0 {
                    assert(head =~= Seq::<char>::empty());
                    assert(encode_utf8(head).len() == 0);
                }
                if m > max {
                    assert forall|q: int| 0 < q < m implies !is_char_boundary(
                        bytes.subrange(0, m),
                        q,
                    ) by {
                        encode_utf8_valid_utf8(text);
                        encode_utf8_valid_utf8(head);
                        is_char_boundary_iff_not_is_continuation_byte(bytes, q);
                        is_char_boundary_iff_not_is_continuation_byte(bytes.subrange(0, m), q);
                    }
                }
            } else {
                assert(parts[i] == chunk_texts(rest, max)[i - 1]);
            }
        }
    }
}

/// Splits `text` into chunks of at most `max_bytes` bytes, at character boundaries. A character
/// that is longer than `max_bytes` is a chunk of its own.
pub fn split_string_by_byte_size(text: &str, max_bytes: usize) -> (r: Vec<String>)
    ensures
        texts(r@) == chunk_texts(text@, max_bytes as int),
{
    let mut out: Vec<String> = Vec::new();
    let mut rest = text;
    let mut n: usize = utf8_byte_len(rest);
    assert(texts(out@) + chunk_texts(rest@, max_bytes as int) =~= chunk_texts(
        text@,
        max_bytes as int,
    ));
    while n > 0
        invariant
            n == encode_utf8(rest@).len(),
            texts(out@) + chunk_texts(rest@, max_bytes as int) == chunk_texts(
                text@,
                max_bytes as int,
            ),
        decreases n,
    {
        let ghost bytes = encode_utf8(rest@);
        let ghost max = max_bytes as int;
        proof {
            encode_utf8_valid_utf8(rest@);
            is_char_boundary_start_end_of_seq(bytes);
        }
        let mut m: usize = if max_bytes < n {
            max_bytes
        } else {
            n
        };
        while m > 0 && !rest.is_char_boundary(m)
            invariant
                m <= n,
                m <= max_bytes,
                n == bytes.len(),
                bytes == encode_utf8(rest@),
                max == max_bytes,
                forall|q: int|
                    m < q <= max && q <= bytes.len() ==> !is_char_boundary(bytes, q),
            decreases m,
        {
            m = m - 1;
        }
        if m == 0 {
            m = 1;
            while !rest.is_char_boundary(m)
                invariant
                    1 <= m <= n,
                    n == bytes.len(),
                    bytes == encode_utf8(rest@),
                    is_char_boundary(bytes, n as int),
                    max == max_bytes,
                    forall|q: int|
                        0 < q <= max && q <= bytes.len() ==> !is_char_boundary(bytes, q),
                    forall|q: int| 0 < q < m ==> !is_char_boundary(bytes, q),
                decreases n - m,
            {
                m = m + 1;
            }
        }
        proof {
            assert(is_cut(bytes, max, m as int));
            cut_unique(bytes, max, m as int);
            split_at_cut(rest@, max);
        }
        let (head, tail) = rest.split_at(m);
        let ghost before = out@;
        let ghost whole = rest@;
        proof {
            encode_utf8_decode_utf8(head@);
            encode_utf8_decode_utf8(tail@);
        }
        out.push(head.to_owned());
        proof {
            assert(texts(out@) =~= texts(before).push(head@));
            assert(chunk_texts(whole, max) == seq![head@] + chunk_texts(tail@, max));
            assert(texts(out@) + chunk_texts(tail@, max) =~= texts(before) + chunk_texts(
                whole,
                max,
            ));
        }
        rest = tail;
        n = utf8_byte_len(rest);
    }
    assert(chunk_texts(rest@, max_bytes as int) =~= Seq::<Seq<char>>::empty());
    assert(texts(out@) =~= chunk_texts(text@, max_bytes as int));
    out
}

/// How a payload is to be sent.
#[derive(Debug, PartialEq, Eq)]
pub struct OversizedSenderOptions {
    /// Token that addresses the transfer.
    pub progress_token: String,
    /// Chunk payload size in bytes.
    pub chunk_size: usize,
    /// Whether the slot after `start` is kept free for the receiver's `accept`.
    pub accept_handshake: bool,
}

impl OversizedSenderOptions {
    /// Options for `progress_token`, with the default chunk size and no handshake.
    pub fn new(progress_token: &str) -> (r: Self)
        ensures
            r.progress_token@ == progress_token@,
            r.chunk_size == DEFAULT_CHUNK_SIZE,
            !r.accept_handshake,
    {
        OversizedSenderOptions {
            progress_token: progress_token.to_owned(),
            chunk_size: DEFAULT_CHUNK_SIZE,
            accept_handshake: false,
        }
    }

    /// Sets the chunk payload size.
    pub fn with_chunk_size(self, chunk_size: usize) -> (r: Self)
        ensures
            r == (OversizedSenderOptions { chunk_size, ..self }),
    {
        OversizedSenderOptions {
            progress_token: self.progress_token,
            chunk_size,
            accept_handshake: self.accept_handshake,
        }
    }

    /// Sets whether the `accept` slot is kept free.
    pub fn with_accept_handshake(self, accept_handshake: bool) -> (r: Self)
        ensures
            r == (OversizedSenderOptions { accept_handshake, ..self }),
    {
        OversizedSenderOptions {
            progress_token: self.progress_token,
            chunk_size: self.chunk_size,
            accept_handshake,
        }
    }
}

/// The frames of one transfer.
#[derive(Debug, PartialEq, Eq)]
pub struct BuiltOversizedFrames {
    /// The `start` frame.
    pub start: JsonRpcNotification,
    /// The `chunk` frames in order.
    pub chunks: Vec<JsonRpcNotification>,
    /// The `end` frame.
    pub end: JsonRpcNotification,
}

/// The models of some notifications.
pub open spec fn notifications(frames: Seq<JsonRpcNotification>) -> Seq<NotificationV> {
    Seq::new(frames.len(), |i: int| frames[i]@)
}

/// Progress slot of the first chunk.
pub open spec fn first_chunk_slot(accept_handshake: bool) -> int {
    START_PROGRESS + if accept_handshake {
        2int
    } else {
        1
    }
}

/// The `start` frame of a transfer of `text` in `total_chunks` chunks.
pub open spec fn start_frame(text: Seq<char>, total_chunks: nat) -> FrameV {
    FrameV::Start {
        completion_mode: CompletionMode::Render,
        digest: digest_of(text),
        total_bytes: encode_utf8(text).len() as u64,
        total_chunks: total_chunks as u64,
    }
}

/// The notification that opens a transfer.
pub open spec fn start_notification(text: Seq<char>, token: Seq<char>, chunk_size: int) -> NotificationV {
    progress_notification(
        token,
        START_PROGRESS,
        None,
        start_frame(text, chunk_texts(text, chunk_size).len()).cvm(),
    )
}

/// The notification that carries one chunk.
pub open spec fn chunk_notification(token: Seq<char>, progress: int, data: Seq<char>) -> NotificationV {
    progress_notification(token, progress as u64, None, (FrameV::Chunk { data }).cvm())
}

/// The notification that closes a transfer.
pub open spec fn end_notification(token: Seq<char>, progress: int) -> NotificationV {
    progress_notification(token, progress as u64, None, FrameV::End.cvm())
}

/// The notifications that carry the chunks `parts`, the first in slot `first`.
pub open spec fn chunk_notifications(token: Seq<char>, first: int, parts: Seq<Seq<char>>) -> Seq<
    NotificationV,
> {
    Seq::new(parts.len(), |i: int| chunk_notification(token, first + i, parts[i]))
}

impl BuiltOversizedFrames {
    /// Every frame in the order in which it is published.
    pub open spec fn ordered(self) -> Seq<NotificationV> {
        seq![self.start@] + notifications(self.chunks@) + seq![self.end@]
    }

    /// Every frame in the order in which it is published.
    pub fn into_ordered(self) -> (r: Vec<JsonRpcNotification>)
        ensures
            notifications(r@) == self.ordered(),
    {
        let mut out: Vec<JsonRpcNotification> = Vec::new();
        let ghost whole = self;
        out.push(self.start);
        let mut chunks = self.chunks;
        out.append(&mut chunks);
        out.push(self.end);
        assert(notifications(out@) =~= whole.ordered());
        out
    }

    /// Number of frames.
    pub fn frame_count(&self) -> (r: usize)
        requires
            self.chunks@.len() <= usize::MAX - 2,
        ensures
            r == self.ordered().len(),
    {
        self.chunks.len() + 2
    }
}

/// Why no frames can be built for `text` in chunks of `chunk_size` bytes, if they cannot.
pub open spec fn build_refusal(text: Seq<char>, chunk_size: int, accept_handshake: bool) -> Option<
    TransferErrorV,
> {
    if chunk_size == 0 {
        Some(TransferErrorV::Policy("Chunk size must be positive"@))
    } else if first_chunk_slot(accept_handshake) + chunk_texts(text, chunk_size).len() > u64::MAX {
        Some(TransferErrorV::Policy("Payload needs more chunks than there are progress slots"@))
    } else {
        None
    }
}

/// The frames of a transfer of `text` in chunks of `chunk_size` bytes: `start`, the chunks in
/// order, and `end`.
pub open spec fn transfer_frames(
    text: Seq<char>,
    token: Seq<char>,
    chunk_size: int,
    accept_handshake: bool,
) -> Seq<NotificationV> {
    let parts = chunk_texts(text, chunk_size);
    let first = first_chunk_slot(accept_handshake);
    seq![start_notification(text, token, chunk_size)] + chunk_notifications(token, first, parts)
        + seq![end_notification(token, first + parts.len())]
}

/// Builds the frames of a transfer: `start` in the first slot, then the chunks, then `end`.
/// With a handshake the slot after `start` stays free.
pub fn build_oversized_frames(text: &str, options: &OversizedSenderOptions) -> (r: Result<
    BuiltOversizedFrames,
    OversizedTransferError,
>)
    ensures
        ({
            let parts = chunk_texts(text@, options.chunk_size as int);
            let token = options.progress_token@;
            let first = first_chunk_slot(options.accept_handshake);
            match build_refusal(text@, options.chunk_size as int, options.accept_handshake) {
                Some(refusal) => r matches Err(e) && e@ == refusal,
                None => {
                    &&& r matches Ok(built)
                    &&& built.start@ == start_notification(text@, token, options.chunk_size as int)
                    &&& notifications(built.chunks@) == chunk_notifications(token, first, parts)
                    &&& built.end@ == end_notification(token, first + parts.len())
                    &&& built.ordered() == transfer_frames(
                        text@,
                        token,
                        options.chunk_size as int,
                        options.accept_handshake,
                    )
                },
            }
        }),
{
    if options.chunk_size == 0 {
        return Err(OversizedTransferError::Policy("Chunk size must be positive".to_owned()));
    }
    let parts = split_string_by_byte_size(text, options.chunk_size);
    let ghost pieces = chunk_texts(text@, options.chunk_size as int);
    assert(pieces.len() == parts@.len());
    let first: u64 = if options.accept_handshake {
        START_PROGRESS + 2
    } else {
        START_PROGRESS + 1
    };
    if parts.len() as u64 > u64::MAX - first {
        return Err(
            OversizedTransferError::Policy(
                "Payload needs more chunks than there are progress slots".to_owned(),
            ),
        );
    }
    let token = options.progress_token.as_str();
    let total_chunks: u64 = parts.len() as u64;
    let total_bytes: u64 = utf8_byte_len(text) as u64;
    let start = OversizedFrame::Start {
        completion_mode: CompletionMode::Render,
        digest: sha256_digest(text),
        total_bytes,
        total_chunks,
    }.into_progress_notification(token, START_PROGRESS, None);
    let mut chunks: Vec<JsonRpcNotification> = Vec::new();
    let mut i: usize = 0;
    while i < parts.len()
        invariant
            i <= parts@.len(),
            first + parts@.len() <= u64::MAX,
            first == first_chunk_slot(options.accept_handshake),
            token@ == options.progress_token@,
            pieces == texts(parts@),
            chunks@.len() == i,
            forall|j: int|
                0 <= j < i ==> (#[trigger] chunks@[j])@ == chunk_notification(
                    options.progress_token@,
                    first + j,
                    pieces[j],
                ),
        decreases parts@.len() - i,
    {
        let frame = OversizedFrame::Chunk { data: parts[i].clone() };
        chunks.push(frame.into_progress_notification(token, first + i as u64, None));
        i = i + 1;
    }
    let end = OversizedFrame::End.into_progress_notification(token, first + total_chunks, None);
    assert(notifications(chunks@) =~= chunk_notifications(token@, first as int, pieces));
    Ok(BuiltOversizedFrames { start, chunks, end })
}

/// Frames are refused exactly for chunks of no bytes, and for more chunks than there are slots for.
pub proof fn frames_are_refused_without_chunks_or_slots(
    text: Seq<char>,
    chunk_size: int,
    handshake: bool,
)
    ensures
        build_refusal(text, chunk_size, handshake) is Some <==> chunk_size == 0 || chunk_texts(
            text,
            chunk_size,
        ).len() + (if handshake {
            3int
        } else {
            2
        }) > u64::MAX,
        build_refusal(text, chunk_size, handshake) matches Some(e) ==> e is Policy,
{
}

} // verus!
