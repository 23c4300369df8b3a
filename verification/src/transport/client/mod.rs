//! The client end of the transport.

pub mod config;
pub mod correlation_store;
pub mod laws;
pub mod progress_tokens;
pub mod relay_resolution;
pub mod server_identity;
pub mod server_relay_discovery;
pub mod transport;

pub use config::NostrClientTransportConfig;
pub use correlation_store::ClientCorrelationStore;
pub use transport::NostrClientTransport;
