//! Configuration of the server end.

use vstd::prelude::*;

use super::session_store::DEFAULT_MAX_SESSIONS;
use crate::constants::{RELAY_TAG, SUPPORT_OPEN_STREAM, SUPPORT_OVERSIZED_TRANSFER};
use crate::json::Json;
use crate::tag::{append_tags, flag_tag, push_tag, tag_views, value_tag, Tag};
use crate::text::{clone_texts, texts};
use crate::transport::client::server_relay_discovery::{
    dedup, first_occurrences, first_occurrences_facts,
};
use crate::transport::open_stream::OpenStreamConfig;
use crate::transport::oversized_transfer::OversizedTransferConfig;
use crate::types::{CapabilityExclusion, EncryptionMode, GiftWrapMode, ServerInfo};

verus! {

/// Configuration of the server end.
#[derive(Debug, PartialEq, Eq)]
pub struct NostrServerTransportConfig {
    /// Relays to connect to.
    pub relay_urls: Vec<String>,
    /// Whether messages are encrypted.
    pub encryption_mode: EncryptionMode,
    /// Which gift wraps are used.
    pub gift_wrap_mode: GiftWrapMode,
    /// Who the server is.
    pub server_info: Option<ServerInfo>,
    /// Whether the server announces itself.
    pub is_announced_server: bool,
    /// Public keys of the clients that are served; without any, all are.
    pub allowed_public_keys: Vec<String>,
    /// Capabilities that every client may use.
    pub excluded_capabilities: Vec<CapabilityExclusion>,
    /// Most clients at once.
    pub max_sessions: usize,
    /// How often silent clients are looked for.
    pub cleanup_interval_ms: u64,
    /// After how much silence a client is forgotten.
    pub session_timeout_ms: u64,
    /// How long the route of a request is kept.
    pub request_timeout_ms: u64,
    /// Relays to advertise; without any, those that the server connects to.
    pub relay_list_urls: Option<Vec<String>>,
    /// More relays on which the server makes itself known; without any, the default ones.
    pub bootstrap_relay_urls: Option<Vec<String>>,
    /// Whether the relay list is published.
    pub publish_relay_list: bool,
    /// The profile to publish.
    pub profile_metadata: Option<Json>,
    /// Oversized transfers.
    pub oversized_transfer: OversizedTransferConfig,
    /// Open streams.
    pub open_stream: OpenStreamConfig,
}

impl Default for NostrServerTransportConfig {
    fn default() -> (r: Self)
        ensures
            texts(r.relay_urls@) == seq!["wss://relay.damus.io"@],
            r.encryption_mode == EncryptionMode::Optional,
            r.gift_wrap_mode == GiftWrapMode::Optional,
            r.server_info is None,
            !r.is_announced_server,
            r.allowed_public_keys@.len() == 0,
            r.excluded_capabilities@.len() == 0,
            r.max_sessions == DEFAULT_MAX_SESSIONS,
            r.cleanup_interval_ms == 60_000,
            r.session_timeout_ms == 300_000,
            r.request_timeout_ms == 60_000,
            r.relay_list_urls is None,
            r.bootstrap_relay_urls is None,
            r.publish_relay_list,
            r.profile_metadata is None,
            r.oversized_transfer == OversizedTransferConfig::standard(),
            r.open_stream == OpenStreamConfig::standard(),
    {
        let mut relay_urls: Vec<String> = Vec::new();
        relay_urls.push("wss://relay.damus.io".to_owned());
        assert(texts(relay_urls@) =~= seq!["wss://relay.damus.io"@]);
        NostrServerTransportConfig {
            relay_urls,
            encryption_mode: EncryptionMode::Optional,
            gift_wrap_mode: GiftWrapMode::Optional,
            server_info: None,
            is_announced_server: false,
            allowed_public_keys: Vec::new(),
            excluded_capabilities: Vec::new(),
            max_sessions: DEFAULT_MAX_SESSIONS,
            cleanup_interval_ms: 60_000,
            session_timeout_ms: 300_000,
            request_timeout_ms: 60_000,
            relay_list_urls: None,
            bootstrap_relay_urls: None,
            publish_relay_list: true,
            profile_metadata: None,
            oversized_transfer: OversizedTransferConfig::default(),
            open_stream: OpenStreamConfig::default(),
        }
    }
}

impl NostrServerTransportConfig {
    /// Sets whether messages are encrypted.
    pub fn with_encryption_mode(self, mode: EncryptionMode) -> (r: Self)
        ensures
            r == (NostrServerTransportConfig { encryption_mode: mode, ..self }),
    {
        NostrServerTransportConfig { encryption_mode: mode, ..self }
    }

    /// Sets which gift wraps are used.
    pub fn with_gift_wrap_mode(self, mode: GiftWrapMode) -> (r: Self)
        ensures
            r == (NostrServerTransportConfig { gift_wrap_mode: mode, ..self }),
    {
        NostrServerTransportConfig { gift_wrap_mode: mode, ..self }
    }

    /// Sets who the server is.
    pub fn with_server_info(self, info: ServerInfo) -> (r: Self)
        ensures
            r == (NostrServerTransportConfig { server_info: Some(info), ..self }),
    {
        NostrServerTransportConfig { server_info: Some(info), ..self }
    }

    /// Sets whether the server announces itself.
    pub fn with_announced_server(self, announced: bool) -> (r: Self)
        ensures
            r == (NostrServerTransportConfig { is_announced_server: announced, ..self }),
    {
        NostrServerTransportConfig { is_announced_server: announced, ..self }
    }

    /// Sets the public keys of the clients that are served.
    pub fn with_allowed_public_keys(self, keys: Vec<String>) -> (r: Self)
        ensures
            r == (NostrServerTransportConfig { allowed_public_keys: keys, ..self }),
    {
        NostrServerTransportConfig { allowed_public_keys: keys, ..self }
    }

    /// Sets the capabilities that every client may use.
    pub fn with_excluded_capabilities(self, caps: Vec<CapabilityExclusion>) -> (r: Self)
        ensures
            r == (NostrServerTransportConfig { excluded_capabilities: caps, ..self }),
    {
        NostrServerTransportConfig { excluded_capabilities: caps, ..self }
    }

    /// Sets how many clients there may be at once.
    pub fn with_max_sessions(self, max: usize) -> (r: Self)
        ensures
            r == (NostrServerTransportConfig { max_sessions: max, ..self }),
    {
        NostrServerTransportConfig { max_sessions: max, ..self }
    }

    /// Sets the relays to connect to.
    pub fn with_relay_urls(self, urls: Vec<String>) -> (r: Self)
        ensures
            r == (NostrServerTransportConfig { relay_urls: urls, ..self }),
    {
        NostrServerTransportConfig { relay_urls: urls, ..self }
    }

    /// Sets how often silent clients are looked for.
    pub fn with_cleanup_interval(self, interval_ms: u64) -> (r: Self)
        ensures
            r == (NostrServerTransportConfig { cleanup_interval_ms: interval_ms, ..self }),
    {
        NostrServerTransportConfig { cleanup_interval_ms: interval_ms, ..self }
    }

    /// Sets after how much silence a client is forgotten.
    pub fn with_session_timeout(self, timeout_ms: u64) -> (r: Self)
        ensures
            r == (NostrServerTransportConfig { session_timeout_ms: timeout_ms, ..self }),
    {
        NostrServerTransportConfig { session_timeout_ms: timeout_ms, ..self }
    }

    /// Sets how long the route of a request is kept.
    pub fn with_request_timeout(self, timeout_ms: u64) -> (r: Self)
        ensures
            r == (NostrServerTransportConfig { request_timeout_ms: timeout_ms, ..self }),
    {
        NostrServerTransportConfig { request_timeout_ms: timeout_ms, ..self }
    }

    /// Sets the relays to advertise.
    pub fn with_relay_list_urls(self, urls: Vec<String>) -> (r: Self)
        ensures
            r == (NostrServerTransportConfig { relay_list_urls: Some(urls), ..self }),
    {
        NostrServerTransportConfig { relay_list_urls: Some(urls), ..self }
    }

    /// Sets more relays on which the server makes itself known.
    pub fn with_bootstrap_relay_urls(self, urls: Vec<String>) -> (r: Self)
        ensures
            r == (NostrServerTransportConfig { bootstrap_relay_urls: Some(urls), ..self }),
    {
        NostrServerTransportConfig { bootstrap_relay_urls: Some(urls), ..self }
    }

    /// Sets whether the relay list is published.
    pub fn with_publish_relay_list(self, publish: bool) -> (r: Self)
        ensures
            r == (NostrServerTransportConfig { publish_relay_list: publish, ..self }),
    {
        NostrServerTransportConfig { publish_relay_list: publish, ..self }
    }

    /// Sets the profile to publish.
    pub fn with_profile_metadata(self, metadata: Json) -> (r: Self)
        ensures
            r == (NostrServerTransportConfig { profile_metadata: Some(metadata), ..self }),
    {
        NostrServerTransportConfig { profile_metadata: Some(metadata), ..self }
    }

    /// Sets the configuration of oversized transfers.
    pub fn with_oversized_transfer(self, config: OversizedTransferConfig) -> (r: Self)
        ensures
            r == (NostrServerTransportConfig { oversized_transfer: config, ..self }),
    {
        NostrServerTransportConfig { oversized_transfer: config, ..self }
    }

    /// Enables or disables oversized transfers.
    pub fn with_oversized_enabled(self, enabled: bool) -> (r: Self)
        ensures
            r == (NostrServerTransportConfig {
                oversized_transfer: OversizedTransferConfig { enabled, ..self.oversized_transfer },
                ..self
            }),
    {
        let oversized_transfer = self.oversized_transfer.with_enabled(enabled);
        NostrServerTransportConfig { oversized_transfer, ..self }
    }

    /// Sets the configuration of open streams.
    pub fn with_open_stream(self, config: OpenStreamConfig) -> (r: Self)
        ensures
            r == (NostrServerTransportConfig { open_stream: config, ..self }),
    {
        NostrServerTransportConfig { open_stream: config, ..self }
    }
}

/// The tags of the features that a server supports.
pub open spec fn feature_tags(oversized: bool, open_stream: bool) -> Seq<Seq<Seq<char>>> {
    (if oversized {
        seq![flag_tag(SUPPORT_OVERSIZED_TRANSFER@)]
    } else {
        Seq::empty()
    }) + (if open_stream {
        seq![flag_tag(SUPPORT_OPEN_STREAM@)]
    } else {
        Seq::empty()
    })
}

/// The tag of a server that supports oversized transfers; none where they are off.
pub fn oversized_support_tags(config: &NostrServerTransportConfig) -> (r: Vec<Tag>)
    ensures
        tag_views(r@) == feature_tags(config.oversized_transfer.enabled, false),
{
    let mut tags: Vec<Tag> = Vec::new();
    assert(tag_views(tags@) =~= Seq::<Seq<Seq<char>>>::empty());
    if config.oversized_transfer.enabled {
        push_tag(&mut tags, Tag::flag(SUPPORT_OVERSIZED_TRANSFER));
    }
    assert(tag_views(tags@) =~= feature_tags(config.oversized_transfer.enabled, false));
    tags
}

/// The tag of a server that supports open streams; none where they are off.
pub fn open_stream_support_tags(config: &OpenStreamConfig) -> (r: Vec<Tag>)
    ensures
        tag_views(r@) == feature_tags(false, config.enabled),
{
    let mut tags: Vec<Tag> = Vec::new();
    assert(tag_views(tags@) =~= Seq::<Seq<Seq<char>>>::empty());
    if config.enabled {
        push_tag(&mut tags, Tag::flag(SUPPORT_OPEN_STREAM));
    }
    assert(tag_views(tags@) =~= feature_tags(false, config.enabled));
    tags
}

/// The tags of the features that a server supports.
pub fn internal_common_capability_tags(config: &NostrServerTransportConfig) -> (r: Vec<Tag>)
    ensures
        tag_views(r@) == feature_tags(config.oversized_transfer.enabled, config.open_stream.enabled),
{
    let mut tags = oversized_support_tags(config);
    append_tags(&mut tags, &open_stream_support_tags(&config.open_stream));
    assert(tag_views(tags@) =~= feature_tags(
        config.oversized_transfer.enabled,
        config.open_stream.enabled,
    ));
    tags
}

/// The relays that a server advertises.
pub open spec fn advertised_urls(config: NostrServerTransportConfig) -> Seq<Seq<char>> {
    match config.relay_list_urls {
        Some(urls) => texts(urls@),
        None => texts(config.relay_urls@),
    }
}

/// The tags of the relay list, if it is published.
pub fn relay_list_tags(config: &NostrServerTransportConfig) -> (r: Option<Vec<Tag>>)
    ensures
        match r {
            Some(tags) => config.publish_relay_list && tag_views(tags@) == Seq::new(
                advertised_urls(*config).len(),
                |i: int| value_tag(RELAY_TAG@, advertised_urls(*config)[i]),
            ),
            None => !config.publish_relay_list,
        },
{
    if !config.publish_relay_list {
        return None;
    }
    let urls = match &config.relay_list_urls {
        Some(urls) => urls,
        None => &config.relay_urls,
    };
    let mut tags: Vec<Tag> = Vec::new();
    let mut i: usize = 0;
    assert(tag_views(tags@) =~= Seq::<Seq<Seq<char>>>::empty());
    while i < urls.len()
        invariant
            i <= urls@.len(),
            tag_views(tags@).len() == i,
            forall|j: int|
                0 <= j < i ==> #[trigger] tag_views(tags@)[j] == value_tag(RELAY_TAG@, urls@[j]@),
        decreases urls@.len() - i,
    {
        push_tag(&mut tags, Tag::with_value(RELAY_TAG, urls[i].as_str()));
        i = i + 1;
    }
    assert(tag_views(tags@) =~= Seq::new(
        advertised_urls(*config).len(),
        |i: int| value_tag(RELAY_TAG@, advertised_urls(*config)[i]),
    ));
    Some(tags)
}

/// The relays to which the server publishes what makes it known: those that it advertises, and
/// then the bootstrap relays, each once.
pub open spec fn publication_urls(
    config: NostrServerTransportConfig,
    bootstrap: Seq<Seq<char>>,
) -> Seq<Seq<char>> {
    first_occurrences(
        advertised_urls(config) + match config.bootstrap_relay_urls {
            Some(urls) => texts(urls@),
            None => bootstrap,
        },
    )
}

/// The relays to which the server publishes what makes it known, where `bootstrap` are the default
/// bootstrap relays.
pub fn publication_targets(config: &NostrServerTransportConfig, bootstrap: &Vec<String>) -> (r: Vec<
    String,
>)
    ensures
        texts(r@) == publication_urls(*config, texts(bootstrap@)),
{
    let mut urls = match &config.relay_list_urls {
        Some(urls) => clone_texts(urls),
        None => clone_texts(&config.relay_urls),
    };
    let ghost advertised = texts(urls@);
    let mut more = match &config.bootstrap_relay_urls {
        Some(more) => clone_texts(more),
        None => clone_texts(bootstrap),
    };
    let ghost added = texts(more@);
    urls.append(&mut more);
    assert(texts(urls@) =~= advertised + added);
    dedup(urls)
}

/// Whatever the server advertises it also publishes to, and to no relay twice.
pub proof fn publication_reaches_advertised_relays(
    config: NostrServerTransportConfig,
    bootstrap: Seq<Seq<char>>,
    url: Seq<char>,
)
    requires
        advertised_urls(config).contains(url),
    ensures
        publication_urls(config, bootstrap).contains(url),
        publication_urls(config, bootstrap).no_duplicates(),
{
    let all = advertised_urls(config) + match config.bootstrap_relay_urls {
        Some(urls) => texts(urls@),
        None => bootstrap,
    };
    let i = advertised_urls(config).index_of(url);
    assert(all[i] == url);
    first_occurrences_facts(all);
}

/// What makes the server known is published to the relays that it advertises and to the bootstrap
/// relays, its own where it names some and the default ones otherwise, each once and to no others.
pub proof fn publication_reaches_bootstrap_relays(
    config: NostrServerTransportConfig,
    bootstrap: Seq<Seq<char>>,
    url: Seq<char>,
)
    ensures
        publication_urls(config, bootstrap).contains(url) <==> advertised_urls(config).contains(url)
            || (match config.bootstrap_relay_urls {
            Some(urls) => texts(urls@).contains(url),
            None => bootstrap.contains(url),
        }),
        config.relay_list_urls is None ==> advertised_urls(config) == texts(config.relay_urls@),
        config.relay_list_urls matches Some(urls) ==> advertised_urls(config) == texts(urls@),
{
    let a = advertised_urls(config);
    let b = match config.bootstrap_relay_urls {
        Some(urls) => texts(urls@),
        None => bootstrap,
    };
    first_occurrences_facts(a + b);
    if a.contains(url) {
        assert((a + b)[a.index_of(url)] == url);
    }
    if b.contains(url) {
        assert((a + b)[a.len() + b.index_of(url)] == url);
    }
    if (a + b).contains(url) {
        let i = (a + b).index_of(url);
        if i < a.len() {
            assert(a[i] == url);
        } else {
            assert(b[i - a.len()] == url);
        }
    }
}

/// The tags for the features that are on are those that a peer learns these features from.
pub proof fn feature_tags_say_what_is_on(oversized: bool, open_stream: bool, tag: Seq<Seq<char>>)
    ensures
        feature_tags(oversized, open_stream).contains(tag) <==> (oversized && tag == flag_tag(
            "support_oversized_transfer"@,
        )) || (open_stream && tag == flag_tag("support_open_stream"@)),
{
    let a = flag_tag(SUPPORT_OVERSIZED_TRANSFER@);
    let b = flag_tag(SUPPORT_OPEN_STREAM@);
    let tags = feature_tags(oversized, open_stream);
    if oversized {
        assert(tags[0] == a);
    }
    if open_stream {
        assert(tags.last() == b);
    }
}

} // verus!
