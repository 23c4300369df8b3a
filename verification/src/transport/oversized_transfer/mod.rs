//! Oversized payload transfer: one JSON-RPC message split over several progress notifications.
//!
//! A payload too large for one event goes out as a `start` frame that declares its length and
//! digest, `chunk` frames in order, and an `end` frame. The receiver reassembles the chunks and
//! hands out the payload only if length and digest match.

pub mod admission_laws;
pub mod codec;
pub mod constants;
pub mod errors;
pub mod frame;
pub mod laws;
pub mod receiver;
pub mod sender;
pub mod sizing;

use vstd::prelude::*;

use constants::{
    DEFAULT_ACCEPT_TIMEOUT_MS, DEFAULT_CHUNK_SIZE, DEFAULT_MAX_CONCURRENT_TRANSFERS,
    DEFAULT_MAX_OUT_OF_ORDER_CHUNKS, DEFAULT_MAX_OUT_OF_ORDER_WINDOW, DEFAULT_MAX_TRANSFER_BYTES,
    DEFAULT_MAX_TRANSFER_CHUNKS, DEFAULT_OVERSIZED_THRESHOLD, DEFAULT_TRANSFER_TIMEOUT_MS,
};

pub use codec::{
    build_oversized_frames, sha256_digest, split_string_by_byte_size, utf8_byte_len,
    BuiltOversizedFrames, OversizedSenderOptions,
};
pub use errors::OversizedTransferError;
pub use frame::{progress_token_string, CompletionMode, OversizedFrame};
pub use receiver::{OversizedTransferReceiver, TransferPolicy};

verus! {

/// Configuration of oversized transfers, on by default.
#[derive(Clone, Copy, PartialEq, Eq, Structural, Debug)]
pub struct OversizedTransferConfig {
    /// Whether the feature is advertised and used.
    pub enabled: bool,
    /// Size in bytes from which on a message is sent in chunks.
    pub threshold: usize,
    /// Chunk payload size in bytes.
    pub chunk_size: usize,
    /// Largest payload that a receiver accepts, in bytes.
    pub max_transfer_bytes: u64,
    /// Largest number of chunks that a receiver accepts.
    pub max_transfer_chunks: u64,
    /// Largest number of transfers that a receiver tracks at once.
    pub max_concurrent_transfers: usize,
    /// Hard deadline of a transfer, from its admission; `0` means none.
    pub transfer_timeout_ms: u64,
    /// Largest gap between a chunk and the contiguous frontier.
    pub max_out_of_order_window: u64,
    /// Largest number of buffered out-of-order chunks.
    pub max_out_of_order_chunks: usize,
    /// Time that a sender waits for an `accept` frame.
    pub accept_timeout_ms: u64,
}

impl OversizedTransferConfig {
    /// The default configuration.
    pub open spec fn standard() -> OversizedTransferConfig {
        OversizedTransferConfig {
            enabled: true,
            threshold: DEFAULT_OVERSIZED_THRESHOLD,
            chunk_size: DEFAULT_CHUNK_SIZE,
            max_transfer_bytes: DEFAULT_MAX_TRANSFER_BYTES,
            max_transfer_chunks: DEFAULT_MAX_TRANSFER_CHUNKS,
            max_concurrent_transfers: DEFAULT_MAX_CONCURRENT_TRANSFERS,
            transfer_timeout_ms: DEFAULT_TRANSFER_TIMEOUT_MS,
            max_out_of_order_window: DEFAULT_MAX_OUT_OF_ORDER_WINDOW,
            max_out_of_order_chunks: DEFAULT_MAX_OUT_OF_ORDER_CHUNKS,
            accept_timeout_ms: DEFAULT_ACCEPT_TIMEOUT_MS,
        }
    }
}

impl Default for OversizedTransferConfig {
    fn default() -> (r: Self)
        ensures
            r == OversizedTransferConfig::standard(),
    {
        OversizedTransferConfig {
            enabled: true,
            threshold: DEFAULT_OVERSIZED_THRESHOLD,
            chunk_size: DEFAULT_CHUNK_SIZE,
            max_transfer_bytes: DEFAULT_MAX_TRANSFER_BYTES,
            max_transfer_chunks: DEFAULT_MAX_TRANSFER_CHUNKS,
            max_concurrent_transfers: DEFAULT_MAX_CONCURRENT_TRANSFERS,
            transfer_timeout_ms: DEFAULT_TRANSFER_TIMEOUT_MS,
            max_out_of_order_window: DEFAULT_MAX_OUT_OF_ORDER_WINDOW,
            max_out_of_order_chunks: DEFAULT_MAX_OUT_OF_ORDER_CHUNKS,
            accept_timeout_ms: DEFAULT_ACCEPT_TIMEOUT_MS,
        }
    }
}

impl OversizedTransferConfig {
    /// A configuration with the feature on and everything else at its default.
    pub fn enabled() -> (r: Self)
        ensures
            r == (OversizedTransferConfig { enabled: true, ..OversizedTransferConfig::standard() }),
    {
        OversizedTransferConfig::default().with_enabled(true)
    }

    /// Enables or disables the feature.
    pub fn with_enabled(self, enabled: bool) -> (r: Self)
        ensures
            r == (OversizedTransferConfig { enabled, ..self }),
    {
        OversizedTransferConfig { enabled, ..self }
    }

    /// Sets the size from which on a message is sent in chunks.
    pub fn with_threshold(self, threshold: usize) -> (r: Self)
        ensures
            r == (OversizedTransferConfig { threshold, ..self }),
    {
        OversizedTransferConfig { threshold, ..self }
    }

    /// Sets the chunk payload size.
    pub fn with_chunk_size(self, chunk_size: usize) -> (r: Self)
        ensures
            r == (OversizedTransferConfig { chunk_size, ..self }),
    {
        OversizedTransferConfig { chunk_size, ..self }
    }

    /// Sets the largest payload that a receiver accepts.
    pub fn with_max_transfer_bytes(self, max: u64) -> (r: Self)
        ensures
            r == (OversizedTransferConfig { max_transfer_bytes: max, ..self }),
    {
        OversizedTransferConfig { max_transfer_bytes: max, ..self }
    }

    /// Sets the largest number of chunks that a receiver accepts.
    pub fn with_max_transfer_chunks(self, max: u64) -> (r: Self)
        ensures
            r == (OversizedTransferConfig { max_transfer_chunks: max, ..self }),
    {
        OversizedTransferConfig { max_transfer_chunks: max, ..self }
    }

    /// Sets the largest number of transfers tracked at once.
    pub fn with_max_concurrent_transfers(self, max: usize) -> (r: Self)
        ensures
            r == (OversizedTransferConfig { max_concurrent_transfers: max, ..self }),
    {
        OversizedTransferConfig { max_concurrent_transfers: max, ..self }
    }

    /// Sets the hard deadline of a transfer.
    pub fn with_transfer_timeout_ms(self, ms: u64) -> (r: Self)
        ensures
            r == (OversizedTransferConfig { transfer_timeout_ms: ms, ..self }),
    {
        OversizedTransferConfig { transfer_timeout_ms: ms, ..self }
    }

    /// Sets the largest gap that is buffered.
    pub fn with_max_out_of_order_window(self, window: u64) -> (r: Self)
        ensures
            r == (OversizedTransferConfig { max_out_of_order_window: window, ..self }),
    {
        OversizedTransferConfig { max_out_of_order_window: window, ..self }
    }

    /// Sets the largest number of buffered out-of-order chunks.
    pub fn with_max_out_of_order_chunks(self, max: usize) -> (r: Self)
        ensures
            r == (OversizedTransferConfig { max_out_of_order_chunks: max, ..self }),
    {
        OversizedTransferConfig { max_out_of_order_chunks: max, ..self }
    }

    /// Sets the time that a sender waits for an `accept` frame.
    pub fn with_accept_timeout_ms(self, ms: u64) -> (r: Self)
        ensures
            r == (OversizedTransferConfig { accept_timeout_ms: ms, ..self }),
    {
        OversizedTransferConfig { accept_timeout_ms: ms, ..self }
    }
}

impl vstd::std_specs::convert::FromSpecImpl<&OversizedTransferConfig> for TransferPolicy {
    open spec fn obeys_from_spec() -> bool {
        true
    }

    open spec fn from_spec(config: &OversizedTransferConfig) -> TransferPolicy {
        TransferPolicy {
            max_transfer_bytes: config.max_transfer_bytes,
            max_transfer_chunks: config.max_transfer_chunks,
            max_concurrent_transfers: config.max_concurrent_transfers,
            max_out_of_order_window: config.max_out_of_order_window,
            max_out_of_order_chunks: config.max_out_of_order_chunks,
            transfer_timeout_ms: config.transfer_timeout_ms,
        }
    }
}

impl From<&OversizedTransferConfig> for TransferPolicy {
    /// The part of the configuration that the receiving side enforces.
    fn from(config: &OversizedTransferConfig) -> (r: Self) {
        TransferPolicy {
            max_transfer_bytes: config.max_transfer_bytes,
            max_transfer_chunks: config.max_transfer_chunks,
            max_concurrent_transfers: config.max_concurrent_transfers,
            max_out_of_order_window: config.max_out_of_order_window,
            max_out_of_order_chunks: config.max_out_of_order_chunks,
            transfer_timeout_ms: config.transfer_timeout_ms,
        }
    }
}

} // verus!
