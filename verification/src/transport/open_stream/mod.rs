//! Open streams: an ordered sequence of chunks that one request's progress token names.

pub mod buffer;
pub mod constants;
pub mod errors;
pub mod frame;
pub mod history;
pub mod laws;
pub mod lifecycle_laws;
pub mod receiver;
pub mod registry;
pub mod session;
pub mod writer;

use vstd::prelude::*;

use constants::{
    DEFAULT_MAX_BUFFERED_BYTES_PER_STREAM, DEFAULT_MAX_BUFFERED_CHUNKS_PER_STREAM,
    DEFAULT_MAX_CONCURRENT_OPEN_STREAMS, DEFAULT_OPEN_STREAM_CLOSE_GRACE_PERIOD_MS,
    DEFAULT_OPEN_STREAM_IDLE_TIMEOUT_MS, DEFAULT_OPEN_STREAM_PROBE_TIMEOUT_MS,
};

pub use errors::OpenStreamError;
pub use frame::{open_stream_frame_from_notification, OpenStreamFrame};
pub use receiver::OpenStreamReceiver;
pub use registry::{OpenStreamRegistry, OpenStreamRegistryPolicy};
pub use session::{FrameOutcome, KeepaliveAction, OpenStreamSession, OpenStreamSessionOptions};
pub use writer::{OpenStreamWriter, OpenStreamWriterOptions};

verus! {

/// Configuration of open streams, off by default.
#[derive(Clone, Copy, PartialEq, Eq, Structural, Debug)]
pub struct OpenStreamConfig {
    /// Whether the feature is advertised and used.
    pub enabled: bool,
    /// Most streams open at once.
    pub max_concurrent_streams: usize,
    /// Most chunks that a stream may buffer and queue.
    pub max_buffered_chunks_per_stream: usize,
    /// Most bytes that a stream may buffer and queue.
    pub max_buffered_bytes_per_stream: usize,
    /// Idle time before a stream is probed.
    pub idle_timeout_ms: u64,
    /// Time to wait for the answer to a probe.
    pub probe_timeout_ms: u64,
    /// Time to wait for missing chunks after a close.
    pub close_grace_period_ms: u64,
    /// Cap on the lifetime of a stream, if there is one.
    pub max_total_timeout_ms: Option<u64>,
}

impl OpenStreamConfig {
    /// The default configuration.
    pub open spec fn standard() -> OpenStreamConfig {
        OpenStreamConfig {
            enabled: false,
            max_concurrent_streams: DEFAULT_MAX_CONCURRENT_OPEN_STREAMS,
            max_buffered_chunks_per_stream: DEFAULT_MAX_BUFFERED_CHUNKS_PER_STREAM,
            max_buffered_bytes_per_stream: DEFAULT_MAX_BUFFERED_BYTES_PER_STREAM,
            idle_timeout_ms: DEFAULT_OPEN_STREAM_IDLE_TIMEOUT_MS,
            probe_timeout_ms: DEFAULT_OPEN_STREAM_PROBE_TIMEOUT_MS,
            close_grace_period_ms: DEFAULT_OPEN_STREAM_CLOSE_GRACE_PERIOD_MS,
            max_total_timeout_ms: None,
        }
    }
}

impl Default for OpenStreamConfig {
    fn default() -> (r: Self)
        ensures
            r == OpenStreamConfig::standard(),
    {
        OpenStreamConfig {
            enabled: false,
            max_concurrent_streams: DEFAULT_MAX_CONCURRENT_OPEN_STREAMS,
            max_buffered_chunks_per_stream: DEFAULT_MAX_BUFFERED_CHUNKS_PER_STREAM,
            max_buffered_bytes_per_stream: DEFAULT_MAX_BUFFERED_BYTES_PER_STREAM,
            idle_timeout_ms: DEFAULT_OPEN_STREAM_IDLE_TIMEOUT_MS,
            probe_timeout_ms: DEFAULT_OPEN_STREAM_PROBE_TIMEOUT_MS,
            close_grace_period_ms: DEFAULT_OPEN_STREAM_CLOSE_GRACE_PERIOD_MS,
            max_total_timeout_ms: None,
        }
    }
}

impl OpenStreamConfig {
    /// A configuration with the feature on and everything else at its default.
    pub fn enabled() -> (r: Self)
        ensures
            r == (OpenStreamConfig { enabled: true, ..OpenStreamConfig::standard() }),
    {
        OpenStreamConfig::default().with_enabled(true)
    }

    /// Enables or disables the feature.
    pub fn with_enabled(self, enabled: bool) -> (r: Self)
        ensures
            r == (OpenStreamConfig { enabled, ..self }),
    {
        OpenStreamConfig { enabled, ..self }
    }

    /// Sets how many streams may be open at once.
    pub fn with_max_concurrent_streams(self, max: usize) -> (r: Self)
        ensures
            r == (OpenStreamConfig { max_concurrent_streams: max, ..self }),
    {
        OpenStreamConfig { max_concurrent_streams: max, ..self }
    }

    /// Sets how many chunks a stream may buffer and queue.
    pub fn with_max_buffered_chunks_per_stream(self, max: usize) -> (r: Self)
        ensures
            r == (OpenStreamConfig { max_buffered_chunks_per_stream: max, ..self }),
    {
        OpenStreamConfig { max_buffered_chunks_per_stream: max, ..self }
    }

    /// Sets how many bytes a stream may buffer and queue.
    pub fn with_max_buffered_bytes_per_stream(self, max: usize) -> (r: Self)
        ensures
            r == (OpenStreamConfig { max_buffered_bytes_per_stream: max, ..self }),
    {
        OpenStreamConfig { max_buffered_bytes_per_stream: max, ..self }
    }

    /// Sets the idle time before a stream is probed.
    pub fn with_idle_timeout_ms(self, ms: u64) -> (r: Self)
        ensures
            r == (OpenStreamConfig { idle_timeout_ms: ms, ..self }),
    {
        OpenStreamConfig { idle_timeout_ms: ms, ..self }
    }

    /// Sets the time to wait for the answer to a probe.
    pub fn with_probe_timeout_ms(self, ms: u64) -> (r: Self)
        ensures
            r == (OpenStreamConfig { probe_timeout_ms: ms, ..self }),
    {
        OpenStreamConfig { probe_timeout_ms: ms, ..self }
    }

    /// Sets the time to wait for missing chunks after a close.
    pub fn with_close_grace_period_ms(self, ms: u64) -> (r: Self)
        ensures
            r == (OpenStreamConfig { close_grace_period_ms: ms, ..self }),
    {
        OpenStreamConfig { close_grace_period_ms: ms, ..self }
    }

    /// Sets the cap on the lifetime of a stream.
    pub fn with_max_total_timeout_ms(self, ms: Option<u64>) -> (r: Self)
        ensures
            r == (OpenStreamConfig { max_total_timeout_ms: ms, ..self }),
    {
        OpenStreamConfig { max_total_timeout_ms: ms, ..self }
    }
}

impl vstd::std_specs::convert::FromSpecImpl<&OpenStreamConfig> for OpenStreamRegistryPolicy {
    open spec fn obeys_from_spec() -> bool {
        true
    }

    open spec fn from_spec(config: &OpenStreamConfig) -> OpenStreamRegistryPolicy {
        OpenStreamRegistryPolicy {
            max_concurrent_streams: config.max_concurrent_streams,
            max_buffered_chunks_per_stream: config.max_buffered_chunks_per_stream,
            max_buffered_bytes_per_stream: config.max_buffered_bytes_per_stream,
            idle_timeout_ms: config.idle_timeout_ms,
            probe_timeout_ms: config.probe_timeout_ms,
            close_grace_period_ms: config.close_grace_period_ms,
        }
    }
}

impl From<&OpenStreamConfig> for OpenStreamRegistryPolicy {
    /// The part of the configuration that the receiving side enforces.
    fn from(config: &OpenStreamConfig) -> (r: Self) {
        OpenStreamRegistryPolicy {
            max_concurrent_streams: config.max_concurrent_streams,
            max_buffered_chunks_per_stream: config.max_buffered_chunks_per_stream,
            max_buffered_bytes_per_stream: config.max_buffered_bytes_per_stream,
            idle_timeout_ms: config.idle_timeout_ms,
            probe_timeout_ms: config.probe_timeout_ms,
            close_grace_period_ms: config.close_grace_period_ms,
        }
    }
}

} // verus!
