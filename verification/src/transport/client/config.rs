//! Configuration of the client end.

use vstd::prelude::*;

use super::relay_resolution::{RelayResolutionConfig, SourcesV};
use crate::text::{clone_texts, texts};
use crate::transport::open_stream::OpenStreamConfig;
use crate::transport::oversized_transfer::OversizedTransferConfig;
use crate::types::{EncryptionMode, GiftWrapMode};

verus! {

/// Configuration of the client end.
#[derive(Debug, PartialEq, Eq)]
pub struct NostrClientTransportConfig {
    /// Relays to connect to.
    pub relay_urls: Vec<String>,
    /// The server: its public key in hexadecimal or as `npub`, or its `nprofile`.
    pub server_pubkey: String,
    /// Whether messages are encrypted.
    pub encryption_mode: EncryptionMode,
    /// Which gift wraps are used.
    pub gift_wrap_mode: GiftWrapMode,
    /// Whether `initialize` is answered locally.
    pub is_stateless: bool,
    /// How long a request is remembered as pending.
    pub timeout_ms: u64,
    /// Relays on which the server's relay list is looked up.
    pub discovery_relay_urls: Option<Vec<String>>,
    /// Relays that are probed meanwhile.
    pub fallback_operational_relay_urls: Option<Vec<String>>,
    /// Oversized transfers.
    pub oversized_transfer: OversizedTransferConfig,
    /// Open streams.
    pub open_stream: OpenStreamConfig,
}

impl Default for NostrClientTransportConfig {
    fn default() -> (r: Self)
        ensures
            r.relay_urls@.len() == 0,
            r.server_pubkey@.len() == 0,
            r.encryption_mode == EncryptionMode::Optional,
            r.gift_wrap_mode == GiftWrapMode::Optional,
            !r.is_stateless,
            r.timeout_ms == 30_000,
            r.discovery_relay_urls is None,
            r.fallback_operational_relay_urls is None,
            r.oversized_transfer == OversizedTransferConfig::standard(),
            r.open_stream == OpenStreamConfig::standard(),
    {
        NostrClientTransportConfig {
            relay_urls: Vec::new(),
            server_pubkey: String::new(),
            encryption_mode: EncryptionMode::Optional,
            gift_wrap_mode: GiftWrapMode::Optional,
            is_stateless: false,
            timeout_ms: 30_000,
            discovery_relay_urls: None,
            fallback_operational_relay_urls: None,
            oversized_transfer: OversizedTransferConfig::default(),
            open_stream: OpenStreamConfig::default(),
        }
    }
}

impl NostrClientTransportConfig {
    /// Sets who the server is.
    pub fn with_server_pubkey(self, pubkey: String) -> (r: Self)
        ensures
            r == (NostrClientTransportConfig { server_pubkey: pubkey, ..self }),
    {
        NostrClientTransportConfig { server_pubkey: pubkey, ..self }
    }

    /// Sets whether messages are encrypted.
    pub fn with_encryption_mode(self, mode: EncryptionMode) -> (r: Self)
        ensures
            r == (NostrClientTransportConfig { encryption_mode: mode, ..self }),
    {
        NostrClientTransportConfig { encryption_mode: mode, ..self }
    }

    /// Sets which gift wraps are used.
    pub fn with_gift_wrap_mode(self, mode: GiftWrapMode) -> (r: Self)
        ensures
            r == (NostrClientTransportConfig { gift_wrap_mode: mode, ..self }),
    {
        NostrClientTransportConfig { gift_wrap_mode: mode, ..self }
    }

    /// Sets whether `initialize` is answered locally.
    pub fn with_stateless(self, stateless: bool) -> (r: Self)
        ensures
            r == (NostrClientTransportConfig { is_stateless: stateless, ..self }),
    {
        NostrClientTransportConfig { is_stateless: stateless, ..self }
    }

    /// Sets the relays to connect to.
    pub fn with_relay_urls(self, urls: Vec<String>) -> (r: Self)
        ensures
            r == (NostrClientTransportConfig { relay_urls: urls, ..self }),
    {
        NostrClientTransportConfig { relay_urls: urls, ..self }
    }

    /// Sets how long a request is remembered as pending.
    pub fn with_timeout(self, timeout_ms: u64) -> (r: Self)
        ensures
            r == (NostrClientTransportConfig { timeout_ms, ..self }),
    {
        NostrClientTransportConfig { timeout_ms, ..self }
    }

    /// Sets the relays on which the server's relay list is looked up.
    pub fn with_discovery_relay_urls(self, urls: Vec<String>) -> (r: Self)
        ensures
            r == (NostrClientTransportConfig { discovery_relay_urls: Some(urls), ..self }),
    {
        NostrClientTransportConfig { discovery_relay_urls: Some(urls), ..self }
    }

    /// Sets the relays that are probed meanwhile.
    pub fn with_fallback_operational_relay_urls(self, urls: Vec<String>) -> (r: Self)
        ensures
            r == (NostrClientTransportConfig { fallback_operational_relay_urls: Some(urls), ..self }),
    {
        NostrClientTransportConfig { fallback_operational_relay_urls: Some(urls), ..self }
    }

    /// Sets the configuration of oversized transfers.
    pub fn with_oversized_transfer(self, config: OversizedTransferConfig) -> (r: Self)
        ensures
            r == (NostrClientTransportConfig { oversized_transfer: config, ..self }),
    {
        NostrClientTransportConfig { oversized_transfer: config, ..self }
    }

    /// Enables or disables oversized transfers.
    pub fn with_oversized_enabled(self, enabled: bool) -> (r: Self)
        ensures
            r == (NostrClientTransportConfig {
                oversized_transfer: OversizedTransferConfig { enabled, ..self.oversized_transfer },
                ..self
            }),
    {
        let oversized_transfer = self.oversized_transfer.with_enabled(enabled);
        NostrClientTransportConfig { oversized_transfer, ..self }
    }

    /// Sets the configuration of open streams.
    pub fn with_open_stream(self, config: OpenStreamConfig) -> (r: Self)
        ensures
            r == (NostrClientTransportConfig { open_stream: config, ..self }),
    {
        NostrClientTransportConfig { open_stream: config, ..self }
    }
}

/// Where the relays of a server may come from: those that are configured, those that its identity
/// hints at, those on which its relay list is looked up, which have a default, and those to be
/// probed meanwhile.
pub open spec fn relay_sources(
    config: NostrClientTransportConfig,
    hinted: Seq<Seq<char>>,
    bootstrap: Seq<Seq<char>>,
) -> SourcesV {
    SourcesV {
        configured: texts(config.relay_urls@),
        hinted,
        discovery: match config.discovery_relay_urls {
            Some(urls) => texts(urls@),
            None => bootstrap,
        },
        fallback: match config.fallback_operational_relay_urls {
            Some(urls) => texts(urls@),
            None => Seq::empty(),
        },
    }
}

/// Where the relays of a server may come from.
pub fn relay_resolution_config(
    config: &NostrClientTransportConfig,
    hinted: &Vec<String>,
    bootstrap: &Vec<String>,
) -> (r: RelayResolutionConfig)
    ensures
        r@ == relay_sources(*config, texts(hinted@), texts(bootstrap@)),
{
    let discovery_relay_urls = match &config.discovery_relay_urls {
        Some(urls) => clone_texts(urls),
        None => clone_texts(bootstrap),
    };
    let fallback_operational_relay_urls = match &config.fallback_operational_relay_urls {
        Some(urls) => clone_texts(urls),
        None => {
            let none: Vec<String> = Vec::new();
            assert(texts(none@) =~= Seq::<Seq<char>>::empty());
            none
        },
    };
    RelayResolutionConfig {
        configured_relay_urls: clone_texts(&config.relay_urls),
        hinted_relay_urls: clone_texts(hinted),
        discovery_relay_urls,
        fallback_operational_relay_urls,
    }
}

/// The sources of relays are those that the configuration names; where it names none, relay lists
/// are looked up on the relays for that, and nothing is fallen back on.
pub proof fn configuration_decides_on_sources(
    config: NostrClientTransportConfig,
    hinted: Seq<Seq<char>>,
    bootstrap: Seq<Seq<char>>,
)
    ensures
        ({
            let s = relay_sources(config, hinted, bootstrap);
            &&& s.configured.len() == config.relay_urls@.len()
            &&& forall|i: int|
                0 <= i < s.configured.len() ==> #[trigger] s.configured[i]
                    == config.relay_urls@[i]@
            &&& s.hinted == hinted
            &&& config.discovery_relay_urls is None ==> s.discovery == bootstrap
            &&& config.discovery_relay_urls matches Some(urls) ==> s.discovery.len() == urls@.len()
                && forall|i: int|
                0 <= i < urls@.len() ==> #[trigger] s.discovery[i] == urls@[i]@
            &&& config.fallback_operational_relay_urls is None ==> s.fallback.len() == 0
            &&& config.fallback_operational_relay_urls matches Some(urls) ==> s.fallback.len()
                == urls@.len() && forall|i: int|
                0 <= i < urls@.len() ==> #[trigger] s.fallback[i] == urls@[i]@
        }),
{
}

} // verus!
