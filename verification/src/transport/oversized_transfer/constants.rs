//! Constants of the oversized-transfer protocol and the default limits.

use vstd::prelude::*;

verus! {

/// `cvm.type` of every oversized-transfer frame.
pub const OVERSIZED_TRANSFER_TYPE: &'static str = "oversized-transfer";

/// Prefix of a digest, ahead of the lowercase hexadecimal SHA-256.
pub const DIGEST_PREFIX: &'static str = "sha256:";

/// Method of the notification that carries a frame.
pub const NOTIFICATIONS_PROGRESS_METHOD: &'static str = "notifications/progress";

/// Default chunk payload size in bytes.
pub const DEFAULT_CHUNK_SIZE: usize = 48_000;

/// Default published size above which a message is sent in chunks.
pub const DEFAULT_OVERSIZED_THRESHOLD: usize = 48_000;

/// Default limit on the size of a reassembled payload.
pub const DEFAULT_MAX_TRANSFER_BYTES: u64 = 104_857_600;

/// Default limit on the number of chunks.
pub const DEFAULT_MAX_TRANSFER_CHUNKS: u64 = 10_000;

/// Default limit on concurrently active transfers.
pub const DEFAULT_MAX_CONCURRENT_TRANSFERS: usize = 64;

/// Default hard deadline of one transfer.
pub const DEFAULT_TRANSFER_TIMEOUT_MS: u64 = 300_000;

/// Default limit on the gap between a chunk and the contiguous frontier.
pub const DEFAULT_MAX_OUT_OF_ORDER_WINDOW: u64 = 21;

/// Default limit on buffered out-of-order chunks.
pub const DEFAULT_MAX_OUT_OF_ORDER_CHUNKS: usize = 42;

/// Default time to wait for an `accept` frame.
pub const DEFAULT_ACCEPT_TIMEOUT_MS: u64 = 30_000;

/// Progress slot of the `start` frame.
pub const START_PROGRESS: u64 = 1;

/// Progress slot reserved for the `accept` frame.
pub const ACCEPT_PROGRESS: u64 = 2;

} // verus!
