//! The server end of the transport.

pub mod access;
pub mod announcement_manager;
pub mod config;
pub mod correlation_store;
pub mod delivery_laws;
pub mod laws;
pub mod open_streams;
pub mod oversized_peers;
pub mod reply;
pub mod session_laws;
pub mod session_store;
pub mod transport;

pub use config::NostrServerTransportConfig;
pub use correlation_store::{RouteEntry, ServerEventRouteStore};
pub use session_store::{SessionSnapshot, SessionStore};
pub use transport::NostrServerTransport;
