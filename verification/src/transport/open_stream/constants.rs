//! Constants of the open-stream protocol and the default limits.

use vstd::prelude::*;

verus! {

/// `cvm.type` of every open-stream frame.
pub const OPEN_STREAM_TYPE: &'static str = "open-stream";

/// Default limit on concurrently open streams.
pub const DEFAULT_MAX_CONCURRENT_OPEN_STREAMS: usize = 64;

/// Default limit on buffered and queued chunks of one stream.
pub const DEFAULT_MAX_BUFFERED_CHUNKS_PER_STREAM: usize = 64;

/// Default limit on buffered and queued bytes of one stream.
pub const DEFAULT_MAX_BUFFERED_BYTES_PER_STREAM: usize = 524_288;

/// Default idle time before a stream is probed.
pub const DEFAULT_OPEN_STREAM_IDLE_TIMEOUT_MS: u64 = 30_000;

/// Default time to wait for the answer to a probe.
pub const DEFAULT_OPEN_STREAM_PROBE_TIMEOUT_MS: u64 = 20_000;

/// Default time to wait for missing chunks after a close.
pub const DEFAULT_OPEN_STREAM_CLOSE_GRACE_PERIOD_MS: u64 = 5_000;

} // verus!
