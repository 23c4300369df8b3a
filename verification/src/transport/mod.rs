//! Transports and the engines they drive.

pub mod client;
pub mod discovery_tags;
pub mod laws;
pub mod open_stream;
pub mod oversized_transfer;
pub mod routing;
pub mod server;

pub use client::{ClientCorrelationStore, NostrClientTransport, NostrClientTransportConfig};
pub use discovery_tags::{
    get_discovery_tags, has_single_tag, learn_peer_capabilities,
    parse_discovered_peer_capabilities, DiscoveredPeerCapabilities, PeerCapabilities,
};
pub use open_stream::{
    OpenStreamConfig, OpenStreamError, OpenStreamFrame, OpenStreamRegistry,
    OpenStreamRegistryPolicy, OpenStreamSession, OpenStreamWriter,
};
pub use server::{NostrServerTransport, NostrServerTransportConfig, ServerEventRouteStore};
