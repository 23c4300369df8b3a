use contextvm_sdk::constants::{
    default_bootstrap_relay_urls, CTXVM_MESSAGES_KIND, DEFAULT_LRU_SIZE,
    EPHEMERAL_GIFT_WRAP_KIND, GIFT_WRAP_KIND, RELAY_TAG, SUPPORT_ENCRYPTION, SUPPORT_ENCRYPTION_EPHEMERAL,
};
use contextvm_sdk::json::{Fraction, Json, Number};
use contextvm_sdk::message::{JsonRpcMessage, JsonRpcNotification, JsonRpcRequest, JsonRpcResponse};
use contextvm_sdk::tag::Tag;
use contextvm_sdk::transport::client::config::NostrClientTransportConfig;
use contextvm_sdk::transport::client::correlation_store::ClientCorrelationStore;
use contextvm_sdk::transport::client::relay_resolution::{
    begin_resolution, first_search_ended, probed_relays, second_search_ended,
    RelayResolutionConfig, ResolutionStep, Search,
};
use contextvm_sdk::transport::client::server_identity::{
    identity_from, parse_server_identity, ServerIdentity,
};
use contextvm_sdk::transport::client::server_relay_discovery::{
    latest_relay_list, select_operational_relay_urls, RelayListEntry, RelayListEvent,
};
use contextvm_sdk::transport::client::transport::{
    emulate_initialize_response, event_has_initialize_result, has_support_ephemeral_tag,
    should_learn_ephemeral_support, stripped_progress_notification, InboundEvent,
    NostrClientTransport, Received, Screening, SendPlan,
};
use contextvm_sdk::transport::discovery_tags::{
    get_discovery_tags, has_single_tag, learn_peer_capabilities,
    parse_discovered_peer_capabilities, PeerCapabilities,
};
use contextvm_sdk::transport::oversized_transfer::codec::{
    build_oversized_frames, OversizedSenderOptions,
};
use contextvm_sdk::transport::oversized_transfer::errors::OversizedTransferError;
use contextvm_sdk::transport::oversized_transfer::frame::OversizedFrame;
use contextvm_sdk::transport::oversized_transfer::sender::{SendAction, SendEvent};
use contextvm_sdk::transport::oversized_transfer::OversizedTransferConfig;
use contextvm_sdk::transport::routing::{
    create_response_tags, get_tag_value, is_gift_wrap_kind, sweep_interval_us,
    violates_encryption_policy,
};
use contextvm_sdk::types::{EncryptionMode, GiftWrapMode};
use nostr_sdk::nips::nip19::{Nip19Profile, ToBech32};
use nostr_sdk::{Keys, RelayUrl};
use serde_json::Value;

fn convert(value: &Value) -> Json {
    match value {
        Value::Null => Json::Null,
        Value::Bool(b) => Json::Bool(*b),
        Value::Number(n) => Json::Number(if let Some(u) = n.as_u64() {
            Number::Unsigned(u)
        } else if let Some(i) = n.as_i64() {
            Number::Signed(i)
        } else {
            let f = n.as_f64().unwrap();
            Number::Fraction(Fraction {
                text: n.to_string(),
                whole: f.fract() == 0.0,
                positive: f > 0.0,
                clamped_u64: f as u64,
                clamped_i64: f as i64,
            })
        }),
        Value::String(s) => Json::Text(s.clone()),
        Value::Array(items) => Json::Array(items.iter().map(convert).collect()),
        Value::Object(map) => {
            Json::Object(map.iter().map(|(k, v)| (k.clone(), convert(v))).collect())
        }
    }
}

fn json(text: &str) -> Json {
    convert(&serde_json::from_str(text).unwrap())
}

fn text(s: &str) -> Json {
    Json::Text(s.to_string())
}

fn num(n: u64) -> Json {
    Json::Number(Number::Unsigned(n))
}

fn at<'a>(value: &'a Json, key: &str) -> &'a Json {
    value.get(key).unwrap()
}


const SERVER: &str = "5f1d0e9d9f4b3a2c1b0a99887766554433221100ffeeddccbbaa998877665544";
const OTHER: &str = "aa1d0e9d9f4b3a2c1b0a99887766554433221100ffeeddccbbaa998877665544";

fn make_tag(parts: &[&str]) -> Tag {
    Tag { parts: parts.iter().map(|s| s.to_string()).collect() }
}

fn strings(list: &[&str]) -> Vec<String> {
    list.iter().map(|s| s.to_string()).collect()
}

// Pending requests.

#[test]
fn remove_nonexistent_is_noop() {
    let mut store = ClientCorrelationStore::new();
    assert!(!store.remove("nonexistent"));
    assert!(!store.contains("nonexistent"));
}

#[test]
fn contains_after_clear() {
    let mut store = ClientCorrelationStore::new();
    store.register("e1".into(), Json::Null, false, 0);
    store.register("e2".into(), Json::Null, false, 0);
    assert!(store.contains("e1"));
    store.clear();
    assert!(!store.contains("e1"));
    assert!(!store.contains("e2"));
}

#[test]
fn register_and_remove_roundtrip() {
    let mut store = ClientCorrelationStore::new();
    store.register("e1".into(), Json::Null, false, 0);
    assert!(store.contains("e1"));
    assert!(store.remove("e1"));
    assert!(!store.contains("e1"));
}

#[test]
fn default_store_is_bounded() {
    let mut store = ClientCorrelationStore::new();
    for i in 0..=DEFAULT_LRU_SIZE {
        store.register(format!("e{i}"), Json::Null, false, 0);
    }

    assert_eq!(store.count(), DEFAULT_LRU_SIZE);
    assert!(!store.contains("e0"));
    assert!(store.contains(&format!("e{DEFAULT_LRU_SIZE}")));
}

#[test]
fn sweep_expired_removes_only_stale_entries() {
    let mut store = ClientCorrelationStore::new();
    store.register("old".into(), num(1), false, 0);
    store.register("fresh".into(), num(2), false, 20);

    let swept = store.sweep_expired(20, 10);
    assert_eq!(swept, 1);
    assert!(!store.contains("old"));
    assert!(store.contains("fresh"));
}

#[test]
fn sweep_expired_returns_zero_when_nothing_expired() {
    let mut store = ClientCorrelationStore::new();
    store.register("e1".into(), Json::Null, false, 0);

    let swept = store.sweep_expired(0, 60_000);
    assert_eq!(swept, 0);
    assert!(store.contains("e1"));
}

#[test]
fn a_touched_request_is_kept() {
    let mut store = ClientCorrelationStore::with_max_pending(2);
    store.register("a".into(), text("id"), true, 0);
    store.register("b".into(), num(1), false, 0);
    assert!(store.touch("a", 15));
    assert!(!store.touch("c", 15));
    assert!(store.is_initialize_request("a"));
    assert!(!store.is_initialize_request("b"));
    assert_eq!(store.get_original_id("a"), Some(text("id")));
    store.register("c".into(), num(2), false, 16);
    assert!(!store.contains("b"));
    assert_eq!(store.sweep_expired(20, 10), 0);
    assert!(store.contains("a"));
}

// Relay resolution.

fn make_config(
    configured: &[&str],
    hinted: &[&str],
    discovery: &[&str],
    fallback: &[&str],
) -> RelayResolutionConfig {
    RelayResolutionConfig {
        configured_relay_urls: strings(configured),
        hinted_relay_urls: strings(hinted),
        discovery_relay_urls: strings(discovery),
        fallback_operational_relay_urls: strings(fallback),
    }
}

/// Resolves with a relay list that cannot be found and fallback relays that answer as told.
fn resolve(config: RelayResolutionConfig, connected: bool) -> Vec<String> {
    match begin_resolution(&config) {
        ResolutionStep::Use(urls) => urls,
        ResolutionStep::Race => {
            match first_search_ended(&config, Search::Discovery, Vec::new()) {
                ResolutionStep::Use(urls) => urls,
                ResolutionStep::Await(Search::Fallback) => {
                    let probed = probed_relays(
                        &config.fallback_operational_relay_urls,
                        connected && !config.fallback_operational_relay_urls.is_empty(),
                    );
                    second_search_ended(&config, probed)
                }
                other => panic!("unexpected step {other:?}"),
            }
        }
        other => panic!("unexpected step {other:?}"),
    }
}

#[test]
fn configured_relays_returned_immediately() {
    let config = make_config(
        &["wss://configured.example.com"],
        &["wss://hinted.example.com"],
        &["wss://discovery.example.com"],
        &["wss://fallback.example.com"],
    );
    assert_eq!(resolve(config, true), vec!["wss://configured.example.com"]);
}

#[test]
fn hinted_relays_returned_when_no_configured() {
    let config = make_config(
        &[],
        &["wss://hint1.example.com"],
        &["wss://discovery.example.com"],
        &[],
    );
    assert_eq!(resolve(config, true), vec!["wss://hint1.example.com"]);
}

#[test]
fn no_discovery_with_fallback_returns_fallback() {
    let config = make_config(&[], &[], &[], &["wss://fallback.example.com"]);
    assert_eq!(resolve(config, true), vec!["wss://fallback.example.com"]);
}

#[test]
fn no_discovery_no_fallback_returns_empty() {
    let config = make_config(&[], &[], &[], &[]);
    assert!(resolve(config, true).is_empty());
}

#[test]
fn both_empty_falls_back_to_discovery_relays() {
    let config = make_config(&[], &[], &["wss://bootstrap.example.com"], &[]);
    assert_eq!(resolve(config, true), vec!["wss://bootstrap.example.com"]);
}

#[test]
fn connect_fallback_empty_urls_returns_empty() {
    assert!(probed_relays(&Vec::new(), false).is_empty());
    assert!(probed_relays(&Vec::new(), true).is_empty());
}

#[test]
fn the_first_search_that_finds_relays_wins() {
    let config = make_config(&[], &[], &["wss://d"], &["wss://f"]);
    assert_eq!(begin_resolution(&config), ResolutionStep::Race);
    assert_eq!(
        first_search_ended(&config, Search::Fallback, strings(&["wss://f"])),
        ResolutionStep::Use(strings(&["wss://f"]))
    );
    assert_eq!(
        first_search_ended(&config, Search::Fallback, Vec::new()),
        ResolutionStep::Await(Search::Discovery)
    );
    assert_eq!(second_search_ended(&config, strings(&["wss://x"])), vec!["wss://x"]);
    assert_eq!(second_search_ended(&config, Vec::new()), vec!["wss://d"]);
}

fn relay_tag(values: &[&str]) -> Tag {
    let mut parts = vec![RELAY_TAG];
    parts.extend_from_slice(values);
    make_tag(&parts)
}

#[test]
fn discovery_with_mock_returns_relay_entries() {
    let entries = latest_relay_list(&vec![RelayListEvent {
        created_at: 1000,
        tags: vec![relay_tag(&["wss://discovered.example.com"])],
    }]);
    assert_eq!(select_operational_relay_urls(&entries), vec!["wss://discovered.example.com"]);
}

#[test]
fn marker_precedence_unmarked_preferred() {
    let entries = latest_relay_list(&vec![RelayListEvent {
        created_at: 1000,
        tags: vec![
            relay_tag(&["wss://unmarked.example.com"]),
            relay_tag(&["wss://read.example.com", "read"]),
        ],
    }]);
    assert_eq!(select_operational_relay_urls(&entries), vec!["wss://unmarked.example.com"]);
}

#[test]
fn with_discovery_relay_urls_overrides_bootstrap() {
    let config = NostrClientTransportConfig::default()
        .with_discovery_relay_urls(vec!["wss://custom-discovery.example.com".to_string()]);
    assert_eq!(
        config.discovery_relay_urls,
        Some(vec!["wss://custom-discovery.example.com".to_string()])
    );
}

#[test]
fn with_fallback_operational_relay_urls_stored_separately() {
    let config = NostrClientTransportConfig::default()
        .with_fallback_operational_relay_urls(vec!["wss://fallback.example.com".to_string()]);
    assert_eq!(
        config.fallback_operational_relay_urls,
        Some(vec!["wss://fallback.example.com".to_string()])
    );
    assert!(config.relay_urls.is_empty());
}

// Relay lists.

fn entry(url: &str, marker: Option<&str>) -> RelayListEntry {
    RelayListEntry { url: url.to_string(), marker: marker.map(|m| m.to_string()) }
}

#[test]
fn select_all_unmarked_returns_all_urls() {
    let entries =
        vec![entry("wss://relay1.example.com", None), entry("wss://relay2.example.com", None)];
    let result = select_operational_relay_urls(&entries);
    assert_eq!(result.len(), 2);
    assert!(result.contains(&"wss://relay1.example.com".to_string()));
    assert!(result.contains(&"wss://relay2.example.com".to_string()));
}

#[test]
fn select_mixed_markers_prefers_unmarked() {
    let entries = vec![
        entry("wss://unmarked.example.com", None),
        entry("wss://read.example.com", Some("read")),
        entry("wss://write.example.com", Some("write")),
    ];
    let result = select_operational_relay_urls(&entries);
    assert_eq!(result, vec!["wss://unmarked.example.com"]);
}

#[test]
fn select_only_read_write_returns_union() {
    let entries = vec![
        entry("wss://read.example.com", Some("read")),
        entry("wss://write.example.com", Some("write")),
    ];
    let result = select_operational_relay_urls(&entries);
    assert_eq!(result.len(), 2);
    assert!(result.contains(&"wss://read.example.com".to_string()));
    assert!(result.contains(&"wss://write.example.com".to_string()));
}

#[test]
fn select_empty_input_returns_empty() {
    let result = select_operational_relay_urls(&Vec::new());
    assert!(result.is_empty());
}

#[test]
fn select_deduplicates_urls() {
    let entries =
        vec![entry("wss://relay.example.com", None), entry("wss://relay.example.com", None)];
    let result = select_operational_relay_urls(&entries);
    assert_eq!(result, vec!["wss://relay.example.com"]);
}

#[test]
fn select_filters_empty_strings() {
    let entries = vec![entry("", None), entry("wss://relay.example.com", None)];
    let result = select_operational_relay_urls(&entries);
    assert_eq!(result, vec!["wss://relay.example.com"]);
}

#[test]
fn fetch_returns_parsed_entries_from_injected_event() {
    let entries = latest_relay_list(&vec![RelayListEvent {
        created_at: 1000,
        tags: vec![
            relay_tag(&["wss://relay1.example.com"]),
            relay_tag(&["wss://relay2.example.com"]),
        ],
    }]);
    assert_eq!(entries.len(), 2);
    assert_eq!(entries[0].url, "wss://relay1.example.com");
    assert!(entries[0].marker.is_none());
    assert_eq!(entries[1].url, "wss://relay2.example.com");
    assert!(entries[1].marker.is_none());
}

#[test]
fn fetch_no_events_returns_empty() {
    assert!(latest_relay_list(&Vec::new()).is_empty());
}

#[test]
fn fetch_multiple_events_returns_latest() {
    let entries = latest_relay_list(&vec![
        RelayListEvent { created_at: 1000, tags: vec![relay_tag(&["wss://old.example.com"])] },
        RelayListEvent { created_at: 2000, tags: vec![relay_tag(&["wss://new.example.com"])] },
    ]);
    assert_eq!(entries.len(), 1);
    assert_eq!(entries[0].url, "wss://new.example.com");
}

#[test]
fn fetch_extracts_marker_from_third_tag_element() {
    let entries = latest_relay_list(&vec![RelayListEvent {
        created_at: 1000,
        tags: vec![
            relay_tag(&["wss://read.example.com", "read"]),
            relay_tag(&["wss://write.example.com", "write"]),
            relay_tag(&["wss://both.example.com"]),
        ],
    }]);
    assert_eq!(entries.len(), 3);
    assert_eq!(entries[0], entry("wss://read.example.com", Some("read")));
    assert_eq!(entries[1], entry("wss://write.example.com", Some("write")));
    assert_eq!(entries[2], entry("wss://both.example.com", None));
}

// Discovery tags.

fn tag_name(tag: &Tag) -> &str {
    &tag.parts[0]
}

fn p_tag() -> Tag {
    make_tag(&["p", SERVER])
}

fn e_tag(id: &str) -> Tag {
    make_tag(&["e", id])
}

#[test]
fn has_single_tag_finds_present() {
    let tags = vec![make_tag(&["support_encryption"])];
    assert!(has_single_tag(&tags, "support_encryption"));
}

#[test]
fn has_single_tag_ignores_multi_value() {
    let tags = vec![make_tag(&["support_encryption", "extra"])];
    assert!(!has_single_tag(&tags, "support_encryption"));
}

#[test]
fn has_single_tag_returns_false_when_absent() {
    let tags = vec![make_tag(&["other_tag"])];
    assert!(!has_single_tag(&tags, "support_encryption"));
}

#[test]
fn has_single_tag_empty_tags() {
    assert!(!has_single_tag(&Vec::new(), "support_encryption"));
}

#[test]
fn get_discovery_tags_filters_routing_tags() {
    let tags = vec![
        p_tag(),
        e_tag(OTHER),
        make_tag(&["support_encryption"]),
        make_tag(&["name", "My Server"]),
    ];
    let discovery = get_discovery_tags(&tags);
    assert_eq!(discovery.len(), 2);
    assert_eq!(tag_name(&discovery[0]), "support_encryption");
    assert_eq!(tag_name(&discovery[1]), "name");
}

#[test]
fn get_discovery_tags_empty_input() {
    assert!(get_discovery_tags(&Vec::new()).is_empty());
}

#[test]
fn get_discovery_tags_all_routing() {
    assert!(get_discovery_tags(&vec![p_tag(), e_tag(OTHER)]).is_empty());
}

#[test]
fn get_discovery_tags_preserves_order() {
    let tags = vec![
        make_tag(&["about", "hello"]),
        p_tag(),
        make_tag(&["website", "https://example.com"]),
        make_tag(&["support_encryption"]),
    ];
    let discovery = get_discovery_tags(&tags);
    assert_eq!(discovery.len(), 3);
    assert_eq!(tag_name(&discovery[0]), "about");
    assert_eq!(tag_name(&discovery[1]), "website");
    assert_eq!(tag_name(&discovery[2]), "support_encryption");
}

#[test]
fn learn_peer_capabilities_all_present() {
    let tags = vec![
        make_tag(&["support_encryption"]),
        make_tag(&["support_encryption_ephemeral"]),
        make_tag(&["support_oversized_transfer"]),
        make_tag(&["support_open_stream"]),
    ];
    let caps = learn_peer_capabilities(&tags);
    assert!(caps.supports_encryption);
    assert!(caps.supports_ephemeral_encryption);
    assert!(caps.supports_oversized_transfer);
    assert!(caps.supports_open_stream);
}

#[test]
fn learn_peer_capabilities_none_present() {
    let caps = learn_peer_capabilities(&vec![make_tag(&["name", "Server"])]);
    assert!(!caps.supports_encryption);
    assert!(!caps.supports_ephemeral_encryption);
    assert!(!caps.supports_oversized_transfer);
}

#[test]
fn learn_peer_capabilities_partial() {
    let caps = learn_peer_capabilities(&vec![make_tag(&["support_encryption"])]);
    assert!(caps.supports_encryption);
    assert!(!caps.supports_ephemeral_encryption);
    assert!(!caps.supports_oversized_transfer);
    assert!(!caps.supports_open_stream);
}

#[test]
fn learn_peer_capabilities_open_stream_only() {
    let caps = learn_peer_capabilities(&vec![make_tag(&["support_open_stream"])]);
    assert!(caps.supports_open_stream);
    assert!(!caps.supports_encryption);

    let multi = vec![make_tag(&["support_open_stream", "extra"])];
    assert!(!learn_peer_capabilities(&multi).supports_open_stream);
}

#[test]
fn learn_peer_capabilities_empty() {
    assert_eq!(learn_peer_capabilities(&Vec::new()), PeerCapabilities::default());
}

#[test]
fn learn_peer_capabilities_ignores_multi_value_capability_tags() {
    let tags = vec![
        make_tag(&["support_encryption", "yes"]),
        make_tag(&["support_encryption_ephemeral"]),
    ];
    let caps = learn_peer_capabilities(&tags);
    assert!(!caps.supports_encryption);
    assert!(caps.supports_ephemeral_encryption);
    assert!(!caps.supports_oversized_transfer);
}

#[test]
fn parse_discovered_peer_capabilities_filters_and_parses() {
    let tags = vec![
        p_tag(),
        e_tag(OTHER),
        make_tag(&["support_encryption"]),
        make_tag(&["support_encryption_ephemeral"]),
        make_tag(&["name", "Test Server"]),
    ];
    let result = parse_discovered_peer_capabilities(&tags);
    assert_eq!(result.discovery_tags.len(), 3);
    assert!(result.capabilities.supports_encryption);
    assert!(result.capabilities.supports_ephemeral_encryption);
    assert!(!result.capabilities.supports_oversized_transfer);
}

#[test]
fn parse_discovered_peer_capabilities_empty() {
    let result = parse_discovered_peer_capabilities(&Vec::new());
    assert!(result.discovery_tags.is_empty());
    assert_eq!(result.capabilities, PeerCapabilities::default());
}

#[test]
fn peer_capabilities_default_all_false() {
    let caps = PeerCapabilities::default();
    assert!(!caps.supports_encryption);
    assert!(!caps.supports_ephemeral_encryption);
    assert!(!caps.supports_oversized_transfer);
    assert!(!caps.supports_open_stream);
}

#[test]
fn peer_capabilities_copy_semantics() {
    let caps = PeerCapabilities {
        supports_encryption: true,
        supports_ephemeral_encryption: true,
        supports_oversized_transfer: false,
        supports_open_stream: true,
    };
    let copy = caps;
    assert_eq!(caps, copy);
}

// The transport.

#[test]
fn test_config_defaults() {
    let config = NostrClientTransportConfig::default();
    assert!(config.relay_urls.is_empty());
    assert!(config.server_pubkey.is_empty());
    assert_eq!(config.encryption_mode, EncryptionMode::Optional);
    assert_eq!(config.gift_wrap_mode, GiftWrapMode::Optional);
    assert!(!config.is_stateless);
    assert_eq!(config.timeout_ms, 30_000);
    assert!(config.discovery_relay_urls.is_none());
    assert!(config.fallback_operational_relay_urls.is_none());
}

#[test]
fn test_stateless_config() {
    let config = NostrClientTransportConfig { is_stateless: true, ..Default::default() };
    assert!(config.is_stateless);
}

#[test]
fn test_custom_timeout_config() {
    let config = NostrClientTransportConfig { timeout_ms: 60_000, ..Default::default() };
    assert_eq!(config.timeout_ms, 60_000);
}

#[test]
fn test_has_support_ephemeral_tag_detects_capability() {
    assert!(has_support_ephemeral_tag(&vec![make_tag(&[SUPPORT_ENCRYPTION_EPHEMERAL])]));
}

#[test]
fn test_has_support_ephemeral_tag_absent() {
    assert!(!has_support_ephemeral_tag(&vec![make_tag(&[SUPPORT_ENCRYPTION])]));
}

#[test]
fn test_should_learn_ephemeral_support_requires_matching_server_pubkey() {
    let tags = vec![make_tag(&[SUPPORT_ENCRYPTION_EPHEMERAL])];
    assert!(!should_learn_ephemeral_support(
        OTHER,
        SERVER,
        Some(EPHEMERAL_GIFT_WRAP_KIND),
        &tags
    ));
    assert!(should_learn_ephemeral_support(
        SERVER,
        SERVER,
        Some(EPHEMERAL_GIFT_WRAP_KIND),
        &tags
    ));
}

#[test]
fn test_should_learn_from_ephemeral_kind_even_without_tag() {
    assert!(should_learn_ephemeral_support(
        SERVER,
        SERVER,
        Some(EPHEMERAL_GIFT_WRAP_KIND),
        &Vec::new()
    ));
}

#[test]
fn test_should_learn_from_tag_without_ephemeral_kind() {
    let tags = vec![make_tag(&[SUPPORT_ENCRYPTION_EPHEMERAL])];
    assert!(should_learn_ephemeral_support(SERVER, SERVER, Some(GIFT_WRAP_KIND), &tags));
}

#[test]
fn test_stateless_emulated_initialize_response_shape() {
    let response = emulate_initialize_response(&num(1), "2025-06-18");
    assert!(response.is_response());
    assert_eq!(response.id(), Some(&num(1)));

    let expected = json(
        r#"{
            "protocolVersion": "2025-06-18",
            "serverInfo": { "name": "Emulated-Stateless-Server", "version": "1.0.0" },
            "capabilities": {
                "tools": { "listChanged": true },
                "prompts": { "listChanged": true },
                "resources": { "subscribe": true, "listChanged": true }
            }
        }"#,
    );
    if let JsonRpcMessage::Response(r) = &response {
        assert!(r.result.get("capabilities").is_some());
        assert!(r.result.get("serverInfo").is_some());
        assert_eq!(
            at(at(&r.result, "serverInfo"), "name").as_str(),
            Some("Emulated-Stateless-Server")
        );
        for key in ["protocolVersion", "serverInfo"] {
            assert_eq!(at(&r.result, key), at(&expected, key));
        }
        for key in ["tools", "prompts"] {
            assert_eq!(
                at(at(&r.result, "capabilities"), key),
                at(at(&expected, "capabilities"), key)
            );
        }
        let resources = at(at(&r.result, "capabilities"), "resources");
        assert_eq!(at(resources, "subscribe"), &Json::Bool(true));
        assert_eq!(at(resources, "listChanged"), &Json::Bool(true));
    } else {
        panic!("expected a response");
    }
}

fn request(id: Json, method: &str, params: Option<Json>) -> JsonRpcMessage {
    JsonRpcMessage::Request(JsonRpcRequest {
        jsonrpc: "2.0".to_string(),
        id,
        method: method.to_string(),
        params,
    })
}

fn response(id: Json) -> JsonRpcMessage {
    JsonRpcMessage::Response(JsonRpcResponse {
        jsonrpc: "2.0".to_string(),
        id,
        result: json("{}"),
    })
}

fn notification(method: &str) -> JsonRpcMessage {
    JsonRpcMessage::Notification(JsonRpcNotification {
        jsonrpc: "2.0".to_string(),
        method: method.to_string(),
        params: None,
    })
}

#[test]
fn test_stateless_mode_initialize_request_detection() {
    let init_req = request(num(1), "initialize", None);
    assert_eq!(init_req.method(), Some("initialize"));
    let init_notif = notification("notifications/initialized");
    assert_eq!(init_notif.method(), Some("notifications/initialized"));

    let config = NostrClientTransportConfig::default()
        .with_server_pubkey(SERVER.to_string())
        .with_stateless(true);
    let mut t = NostrClientTransport::new(config).unwrap();
    assert_eq!(
        t.send(&init_req, "v"),
        SendPlan::Answer(emulate_initialize_response(&num(1), "v"))
    );
    assert_eq!(t.send(&init_notif, "v"), SendPlan::Skip);
    assert!(matches!(t.send(&request(num(2), "tools/list", None), "v"), SendPlan::Send(_)));
}

#[test]
fn test_gift_wrap_kind_detection() {
    assert!(is_gift_wrap_kind(GIFT_WRAP_KIND));
    assert!(is_gift_wrap_kind(EPHEMERAL_GIFT_WRAP_KIND));
    assert!(!is_gift_wrap_kind(CTXVM_MESSAGES_KIND));
}

#[test]
fn test_required_mode_drops_plaintext() {
    assert!(violates_encryption_policy(CTXVM_MESSAGES_KIND, EncryptionMode::Required));
}

#[test]
fn test_disabled_mode_drops_encrypted() {
    assert!(violates_encryption_policy(GIFT_WRAP_KIND, EncryptionMode::Disabled));
    assert!(violates_encryption_policy(EPHEMERAL_GIFT_WRAP_KIND, EncryptionMode::Disabled));
}

#[test]
fn test_optional_mode_accepts_all() {
    assert!(!violates_encryption_policy(CTXVM_MESSAGES_KIND, EncryptionMode::Optional));
    assert!(!violates_encryption_policy(GIFT_WRAP_KIND, EncryptionMode::Optional));
    assert!(!violates_encryption_policy(EPHEMERAL_GIFT_WRAP_KIND, EncryptionMode::Optional));
}

#[test]
fn test_required_mode_accepts_encrypted() {
    assert!(!violates_encryption_policy(GIFT_WRAP_KIND, EncryptionMode::Required));
    assert!(!violates_encryption_policy(EPHEMERAL_GIFT_WRAP_KIND, EncryptionMode::Required));
}

#[test]
fn test_disabled_mode_accepts_plaintext() {
    assert!(!violates_encryption_policy(CTXVM_MESSAGES_KIND, EncryptionMode::Disabled));
}

fn transport_with(
    encryption_mode: EncryptionMode,
    gift_wrap_mode: GiftWrapMode,
    oversized_transfer: OversizedTransferConfig,
) -> NostrClientTransport {
    NostrClientTransport::new(NostrClientTransportConfig {
        encryption_mode,
        gift_wrap_mode,
        oversized_transfer,
        server_pubkey: SERVER.to_string(),
        ..Default::default()
    })
    .unwrap()
}

fn make_transport_for_tags(
    encryption_mode: EncryptionMode,
    gift_wrap_mode: GiftWrapMode,
) -> NostrClientTransport {
    transport_with(encryption_mode, gift_wrap_mode, OversizedTransferConfig::default())
}

fn tag_names(tags: &[Tag]) -> Vec<String> {
    tags.iter().map(|t| t.parts[0].clone()).collect()
}

#[test]
fn client_capability_tags_encryption_optional() {
    let t = make_transport_for_tags(EncryptionMode::Optional, GiftWrapMode::Optional);
    assert_eq!(
        tag_names(&t.get_client_capability_tags()),
        vec![
            "support_encryption",
            "support_encryption_ephemeral",
            "support_oversized_transfer"
        ]
    );
}

#[test]
fn client_capability_tags_encryption_disabled() {
    let t = make_transport_for_tags(EncryptionMode::Disabled, GiftWrapMode::Optional);
    assert_eq!(tag_names(&t.get_client_capability_tags()), vec!["support_oversized_transfer"]);
}

#[test]
fn client_capability_tags_persistent_gift_wrap() {
    let t = make_transport_for_tags(EncryptionMode::Optional, GiftWrapMode::Persistent);
    assert_eq!(
        tag_names(&t.get_client_capability_tags()),
        vec!["support_encryption", "support_oversized_transfer"]
    );
}

#[test]
fn client_capability_tags_oversized_enabled_by_default() {
    assert!(NostrClientTransportConfig::default().oversized_transfer.enabled);
    let t = make_transport_for_tags(EncryptionMode::Optional, GiftWrapMode::Optional);
    let names = tag_names(&t.get_client_capability_tags());
    assert!(names.contains(&"support_oversized_transfer".to_string()));
}

#[test]
fn client_capability_tags_oversized_opt_out() {
    let t = transport_with(
        EncryptionMode::Optional,
        GiftWrapMode::Optional,
        OversizedTransferConfig::default().with_enabled(false),
    );
    let names = tag_names(&t.get_client_capability_tags());
    assert!(!names.contains(&"support_oversized_transfer".to_string()));
}

#[test]
fn client_capability_tags_oversized_enabled() {
    let t = transport_with(
        EncryptionMode::Optional,
        GiftWrapMode::Optional,
        OversizedTransferConfig::enabled(),
    );
    let names = tag_names(&t.get_client_capability_tags());
    assert!(names.contains(&"support_oversized_transfer".to_string()));
}

#[test]
fn client_capability_tags_oversized_enabled_without_encryption() {
    let t = transport_with(
        EncryptionMode::Disabled,
        GiftWrapMode::Optional,
        OversizedTransferConfig::enabled(),
    );
    assert_eq!(tag_names(&t.get_client_capability_tags()), vec!["support_oversized_transfer"]);
}

#[test]
fn client_config_oversized_builders() {
    let cfg = NostrClientTransportConfig::default().with_oversized_enabled(true);
    assert!(cfg.oversized_transfer.enabled);
    let cfg = NostrClientTransportConfig::default()
        .with_oversized_transfer(OversizedTransferConfig::enabled().with_chunk_size(1024));
    assert!(cfg.oversized_transfer.enabled);
    assert_eq!(cfg.oversized_transfer.chunk_size, 1024);
}

#[test]
fn original_progress_token_roundtrip_preserves_numeric_type() {
    let mut t = make_transport_for_tags(EncryptionMode::Optional, GiftWrapMode::Optional);
    t.record_original_progress_token("7", &num(7));
    assert_eq!(t.remove_original_progress_token(Some("7")), Some(num(7)));
    assert_eq!(t.remove_original_progress_token(Some("7")), None);
}

#[test]
fn original_progress_token_string_never_parsed_to_number() {
    let mut t = make_transport_for_tags(EncryptionMode::Optional, GiftWrapMode::Optional);
    t.record_original_progress_token("5", &text("5"));
    assert_eq!(t.remove_original_progress_token(Some("5")), Some(text("5")));
}

#[test]
fn remove_original_progress_token_handles_missing() {
    let mut t = make_transport_for_tags(EncryptionMode::Optional, GiftWrapMode::Optional);
    assert_eq!(t.remove_original_progress_token(None), None);
    assert_eq!(t.remove_original_progress_token(Some("unknown")), None);
}

fn call_with_token() -> JsonRpcMessage {
    request(num(1), "tools/call", Some(json(r#"{ "_meta": { "progressToken": 7 } }"#)))
}

#[test]
fn send_records_numeric_progress_token_original() {
    let mut t = transport_with(
        EncryptionMode::Disabled,
        GiftWrapMode::Optional,
        OversizedTransferConfig::enabled(),
    );
    match t.send(&call_with_token(), "v") {
        SendPlan::Send(o) => assert_eq!(o.oversized_token, Some("7".to_string())),
        other => panic!("expected to send, got {other:?}"),
    }
    assert_eq!(t.remove_original_progress_token(Some("7")), Some(num(7)));
}

#[test]
fn send_records_nothing_when_oversized_disabled() {
    let mut t = transport_with(
        EncryptionMode::Disabled,
        GiftWrapMode::Optional,
        OversizedTransferConfig::default().with_enabled(false),
    );
    match t.send(&call_with_token(), "v") {
        SendPlan::Send(o) => assert_eq!(o.oversized_token, None),
        other => panic!("expected to send, got {other:?}"),
    }
    assert_eq!(t.remove_original_progress_token(Some("7")), None);
}

#[test]
fn stripped_progress_notification_strips_cvm_and_restores_token() {
    let params = json(
        r#"{
            "progressToken": "7",
            "progress": 3,
            "total": 5,
            "message": "transferring",
            "cvm": { "type": "oversized-transfer", "frameType": "chunk", "data": "x" }
        }"#,
    );
    let stripped =
        stripped_progress_notification(&params, &num(7)).expect("frame carries progress");
    let JsonRpcMessage::Notification(n) = stripped else {
        panic!("expected a notification");
    };
    assert_eq!(n.method, "notifications/progress");
    let p = n.params.expect("params");
    assert_eq!(at(&p, "progressToken"), &num(7));
    assert_eq!(at(&p, "progress"), &num(3));
    assert_eq!(at(&p, "total"), &num(5));
    assert_eq!(at(&p, "message"), &text("transferring"));
    assert!(p.get("cvm").is_none());
}

#[test]
fn stripped_progress_notification_requires_progress_and_omits_absent_fields() {
    let malformed = json(r#"{ "progressToken": "7", "cvm": {} }"#);
    assert!(stripped_progress_notification(&malformed, &num(7)).is_none());

    let minimal = json(r#"{ "progressToken": "7", "progress": 1 }"#);
    let stripped =
        stripped_progress_notification(&minimal, &text("7")).expect("progress present");
    let JsonRpcMessage::Notification(n) = stripped else {
        panic!("expected a notification");
    };
    let p = n.params.expect("params");
    match &p {
        Json::Object(members) => assert_eq!(members.len(), 2),
        other => panic!("expected an object, got {other:?}"),
    }
    assert_eq!(at(&p, "progressToken"), &text("7"));
}

#[test]
fn client_discovery_tags_sent_once() {
    let mut t = make_transport_for_tags(EncryptionMode::Optional, GiftWrapMode::Optional);
    assert!(!t.get_pending_client_discovery_tags().is_empty());
    match t.send(&request(num(1), "initialize", None), "v") {
        SendPlan::Send(o) => assert!(o.discovery_sent),
        other => panic!("expected to send, got {other:?}"),
    }
    t.publish_succeeded(true);
    assert!(t.get_pending_client_discovery_tags().is_empty());
    match t.send(&request(num(2), "tools/list", None), "v") {
        SendPlan::Send(o) => {
            assert!(!o.discovery_sent);
            assert_eq!(o.tags, o.base_tags);
        }
        other => panic!("expected to send, got {other:?}"),
    }
}

fn event(id: &str, content: &str, tags: Vec<Tag>) -> InboundEvent {
    InboundEvent {
        event_id: id.to_string(),
        content: content.to_string(),
        pubkey: SERVER.to_string(),
        tags,
        wrap_kind: None,
    }
}

fn make_event_with_tags(id: &str, tag_parts: &[&[&str]]) -> InboundEvent {
    event(id, "{}", tag_parts.iter().map(|p| make_tag(p)).collect())
}

const INITIALIZE_RESULT: &str = r#"{"jsonrpc":"2.0","id":1,"result":{"protocolVersion":"2025-06-18","capabilities":{},"serverInfo":{"name":"UpgradedServer","version":"1.0.0"}}}"#;

fn baseline(t: &NostrClientTransport) -> String {
    t.get_server_initialize_event().unwrap().event_id.clone()
}

#[test]
fn client_learn_server_discovery_sets_baseline() {
    let mut t = make_transport_for_tags(EncryptionMode::Optional, GiftWrapMode::Optional);
    t.learn_server_discovery(&make_event_with_tags(
        "one",
        &[&["support_encryption"], &["name", "TestServer"]],
    ));
    let c = t.discovered_server_capabilities();
    assert!(c.supports_encryption);
    assert!(!c.supports_ephemeral_encryption);
    assert_eq!(baseline(&t), "one");
}

#[test]
fn client_learn_server_discovery_or_assigns() {
    let mut t = make_transport_for_tags(EncryptionMode::Optional, GiftWrapMode::Optional);
    t.learn_server_discovery(&make_event_with_tags("one", &[&["support_encryption"]]));
    t.learn_server_discovery(&make_event_with_tags("two", &[&["support_encryption_ephemeral"]]));
    let c = t.discovered_server_capabilities();
    assert!(c.supports_encryption, "must not downgrade");
    assert!(c.supports_ephemeral_encryption, "must learn new cap");
}

#[test]
fn client_baseline_not_replaced_on_later_events() {
    let mut t = make_transport_for_tags(EncryptionMode::Optional, GiftWrapMode::Optional);
    t.learn_server_discovery(&make_event_with_tags(
        "one",
        &[&["support_encryption"], &["name", "First"]],
    ));
    t.learn_server_discovery(&make_event_with_tags(
        "two",
        &[&["support_encryption_ephemeral"], &["name", "Second"]],
    ));
    assert_eq!(baseline(&t), "one", "baseline must not be replaced");
}

#[test]
fn client_baseline_upgraded_to_initialize_result() {
    let mut t = make_transport_for_tags(EncryptionMode::Optional, GiftWrapMode::Optional);
    t.learn_server_discovery(&make_event_with_tags("one", &[&["support_encryption"]]));
    assert_eq!(baseline(&t), "one");

    t.learn_server_discovery(&event(
        "init",
        INITIALIZE_RESULT,
        vec![make_tag(&["support_encryption"])],
    ));
    assert_eq!(baseline(&t), "init", "baseline must upgrade to the initialize-result event");

    t.learn_server_discovery(&make_event_with_tags("later", &[&["support_encryption_ephemeral"]]));
    assert_eq!(baseline(&t), "init", "baseline must not downgrade");
}

#[test]
fn an_initialize_result_names_a_protocol_version() {
    assert!(event_has_initialize_result(INITIALIZE_RESULT));
    assert!(!event_has_initialize_result(r#"{"result":{"tools":[]}}"#));
    assert!(!event_has_initialize_result(r#"{"protocolVersion":"x"}"#));
    assert!(!event_has_initialize_result("no json"));
    assert!(!event_has_initialize_result(r#"{"result":{"protocolVersion":"x"}"#));
}

#[test]
fn events_are_screened_by_encryption_and_memory() {
    let t = make_transport_for_tags(EncryptionMode::Required, GiftWrapMode::Persistent);
    assert_eq!(t.screen_event(CTXVM_MESSAGES_KIND, "a"), Screening::Drop);
    assert_eq!(t.screen_event(GIFT_WRAP_KIND, "a"), Screening::Unwrap);

    let mut t = make_transport_for_tags(EncryptionMode::Optional, GiftWrapMode::Optional);
    assert_eq!(t.screen_event(CTXVM_MESSAGES_KIND, "a"), Screening::Plain);
    assert_eq!(t.screen_event(EPHEMERAL_GIFT_WRAP_KIND, "a"), Screening::Unwrap);
    t.mark_unwrapped("a".to_string());
    assert_eq!(t.screen_event(EPHEMERAL_GIFT_WRAP_KIND, "a"), Screening::Drop);
    assert_eq!(t.screen_event(EPHEMERAL_GIFT_WRAP_KIND, "b"), Screening::Unwrap);
}

#[test]
fn only_answers_to_pending_requests_are_delivered() {
    let mut t = make_transport_for_tags(EncryptionMode::Optional, GiftWrapMode::Optional);
    t.register_request(&request(num(1), "tools/list", None), "req".to_string(), 0);
    let answer = |id: &str| event("x", "", create_response_tags(OTHER, id));

    let mut stranger = answer("req");
    stranger.pubkey = OTHER.to_string();
    assert_eq!(t.receive(0, &stranger, None, Some(response(num(1)))), Received::Nothing);
    assert_eq!(t.receive(0, &answer("other"), None, Some(response(num(1)))), Received::Nothing);
    assert_eq!(
        t.receive(0, &event("x", "", vec![]), None, Some(response(num(1)))),
        Received::Nothing
    );
    assert_eq!(
        t.receive(0, &answer("req"), None, Some(request(num(1), "ping", None))),
        Received::Nothing
    );
    assert_eq!(
        t.receive(0, &answer("req"), None, Some(response(num(1)))),
        Received::Deliver(response(num(1)))
    );
    assert_eq!(t.receive(0, &answer("req"), None, Some(response(num(1)))), Received::Nothing);
    assert_eq!(
        t.receive(0, &event("x", "", vec![]), None, Some(notification("notifications/x"))),
        Received::Deliver(notification("notifications/x"))
    );
}

#[test]
fn a_request_that_was_not_published_is_forgotten() {
    let mut t = make_transport_for_tags(EncryptionMode::Optional, GiftWrapMode::Optional);
    t.register_request(&request(num(1), "tools/list", None), "req".to_string(), 0);
    t.publish_failed("req");
    let e = event("x", "", create_response_tags(OTHER, "req"));
    assert_eq!(t.receive(0, &e, None, Some(response(num(1)))), Received::Nothing);
}

#[test]
fn an_oversized_response_is_reassembled() {
    let mut t = make_transport_for_tags(EncryptionMode::Optional, GiftWrapMode::Optional);
    t.send(&call_with_token(), "v");
    t.register_request(&call_with_token(), "req".to_string(), 0);
    let payload = r#"{"jsonrpc":"2.0","id":1,"result":{"x":"abcdefghij"}}"#;
    let options = OversizedSenderOptions::new("7").with_chunk_size(10);
    let frames = build_oversized_frames(payload, &options).unwrap().into_ordered();
    let e = event("x", "", create_response_tags(OTHER, "req"));
    let (end, mid) = frames.split_last().unwrap();
    for frame in mid {
        match t.receive(1, &e, Some(frame.duplicate()), None) {
            Received::Deliver(JsonRpcMessage::Notification(n)) => {
                let p = n.params.unwrap();
                assert_eq!(at(&p, "progressToken"), &num(7));
                assert!(p.get("cvm").is_none());
            }
            other => panic!("expected progress, got {other:?}"),
        }
    }
    match t.receive(1, &e, Some(end.duplicate()), None) {
        Received::Reassembled { payload: got, token, correlated } => {
            assert_eq!(got, payload);
            assert_eq!(token, Some("7".to_string()));
            assert_eq!(correlated, Some("req".to_string()));
            assert_eq!(
                t.reassembled(&token, &correlated, Some(response(num(1)))),
                Ok(response(num(1)))
            );
        }
        other => panic!("expected a payload, got {other:?}"),
    }
    assert_eq!(t.remove_original_progress_token(Some("7")), None);
    assert_eq!(t.receive(1, &e, None, Some(response(num(1)))), Received::Nothing);
}

#[test]
fn an_upload_waits_for_the_accept_of_a_stranger() {
    let mut t = make_transport_for_tags(EncryptionMode::Optional, GiftWrapMode::Optional);
    let mut sender = t.begin_oversized_request("abcdef", "7", 2).unwrap();
    assert!(matches!(sender.next_action(), SendAction::Publish(_)));
    sender.on_event(SendEvent::Published);
    assert_eq!(sender.next_action(), SendAction::AwaitAccept);

    let accept = OversizedFrame::Accept.into_progress_notification("7", 2, Some("ok"));
    let e = event("x", "", create_response_tags(OTHER, "start"));
    match t.receive(0, &e, Some(accept.duplicate()), None) {
        Received::Accepted { waiter, .. } => assert_eq!(waiter, "7"),
        other => panic!("expected the accept, got {other:?}"),
    }
    assert!(!matches!(t.receive(0, &e, Some(accept), None), Received::Accepted { .. }));

    t.learn_server_discovery(&make_event_with_tags("d", &[&["support_oversized_transfer"]]));
    let mut known = t.begin_oversized_request("abcdef", "8", 2).unwrap();
    known.on_event(SendEvent::Published);
    assert!(matches!(known.next_action(), SendAction::Publish(_)));
    match t.begin_oversized_request("abc", "9", 0) {
        Err(error) => assert_eq!(
            error,
            OversizedTransferError::Policy("Chunk size must be positive".to_string())
        ),
        Ok(_) => panic!("expected a refusal"),
    }
}

#[test]
fn an_upload_without_an_accept_is_aborted_under_its_token() {
    let mut t = make_transport_for_tags(EncryptionMode::Optional, GiftWrapMode::Optional);
    let mut sender = t.begin_oversized_request("abcdef", "7", 2).unwrap();
    sender.on_event(SendEvent::Published);
    sender.on_event(SendEvent::AcceptMissed);
    assert_eq!(
        sender.next_action(),
        SendAction::Fail(OversizedTransferError::Abort {
            token: "7".to_string(),
            reason: Some("timed out waiting for accept frame".to_string()),
        })
    );
}

#[test]
fn sweeps_run_at_half_the_timeout_within_bounds() {
    assert_eq!(sweep_interval_us(0), 1_000_000);
    assert_eq!(sweep_interval_us(1_999), 1_000_000);
    assert_eq!(sweep_interval_us(5_001), 2_500_500);
    assert_eq!(sweep_interval_us(300_000), 30_000_000);
}

#[test]
fn the_first_tag_with_a_value_counts() {
    let tags = vec![make_tag(&["e"]), e_tag("one"), e_tag("two")];
    assert_eq!(get_tag_value(&tags, "e"), Some("one".to_string()));
    assert_eq!(get_tag_value(&tags, "p"), None);
    let tags = create_response_tags("key", "id");
    assert_eq!(get_tag_value(&tags, "p"), Some("key".to_string()));
    assert_eq!(get_tag_value(&tags, "e"), Some("id".to_string()));
}

#[test]
fn a_late_frame_gives_no_progress() {
    let mut t = make_transport_for_tags(EncryptionMode::Optional, GiftWrapMode::Optional);
    let late = OversizedFrame::Chunk { data: "x".to_string() }
        .into_progress_notification("7", 2, None);
    let e = event("x", "", create_response_tags(OTHER, "req"));
    assert_eq!(t.receive(0, &e, Some(late), None), Received::Nothing);
}

// Who the server is.

fn identity(pubkey: &str, relay_urls: &[&str]) -> ServerIdentity {
    ServerIdentity {
        pubkey: pubkey.to_string(),
        relay_urls: relay_urls.iter().map(|u| u.to_string()).collect(),
    }
}

#[test]
fn a_server_is_named_by_its_key_in_hexadecimal() {
    assert_eq!(parse_server_identity(SERVER), Ok(identity(SERVER, &[])));
    assert_eq!(parse_server_identity(&SERVER.to_uppercase()), Ok(identity(SERVER, &[])));
}

#[test]
fn a_server_is_named_by_an_npub() {
    let keys = Keys::generate();
    let npub = keys.public_key().to_bech32().unwrap();
    assert_eq!(parse_server_identity(&npub), Ok(identity(&keys.public_key().to_hex(), &[])));
}

#[test]
fn a_profile_names_a_server_and_hints_at_relays() {
    let keys = Keys::generate();
    let relays = ["wss://one.example.com", "wss://two.example.com"];
    let profile = Nip19Profile::new(
        keys.public_key(),
        relays.iter().map(|r| RelayUrl::parse(r).unwrap()),
    );
    let text = profile.to_bech32().unwrap();
    assert!(text.starts_with("nprofile1"));
    assert_eq!(
        parse_server_identity(&text),
        Ok(identity(&keys.public_key().to_hex(), &relays))
    );

    let config = NostrClientTransportConfig::default().with_server_pubkey(text);
    let t = NostrClientTransport::new(config).unwrap();
    assert_eq!(t.server_pubkey(), keys.public_key().to_hex());
    assert_eq!(t.relay_sources().hinted_relay_urls, vec![relays[0], relays[1]]);
}

#[test]
fn other_texts_name_no_server() {
    for text in ["", "npub1", "nprofile1", &SERVER[1..]] {
        assert!(parse_server_identity(text).is_err());
        let config = NostrClientTransportConfig::default().with_server_pubkey(text.to_string());
        assert!(NostrClientTransport::new(config).is_err());
    }
}

#[test]
fn a_profile_comes_before_a_key() {
    let profile = identity(OTHER, &["wss://hint"]);
    assert_eq!(
        identity_from(Some(profile), Ok(SERVER.to_string())),
        Ok(identity(OTHER, &["wss://hint"]))
    );
    assert_eq!(identity_from(None, Ok(SERVER.to_string())), Ok(identity(SERVER, &[])));
    assert_eq!(identity_from(None, Err("no key".to_string())), Err("no key".to_string()));
}

#[test]
fn relay_sources_have_defaults() {
    let config = NostrClientTransportConfig::default().with_server_pubkey(SERVER.to_string());
    let configured = config.relay_urls.clone();
    let t = NostrClientTransport::new(config).unwrap();
    assert_eq!(
        *t.relay_sources(),
        RelayResolutionConfig {
            configured_relay_urls: configured,
            hinted_relay_urls: Vec::new(),
            discovery_relay_urls: default_bootstrap_relay_urls(),
            fallback_operational_relay_urls: Vec::new(),
        }
    );
}

#[test]
fn relay_sources_follow_the_configuration() {
    let config = NostrClientTransportConfig::default()
        .with_server_pubkey(SERVER.to_string())
        .with_relay_urls(vec!["wss://mine".to_string()])
        .with_discovery_relay_urls(vec!["wss://find".to_string()])
        .with_fallback_operational_relay_urls(vec!["wss://else".to_string()]);
    let t = NostrClientTransport::new(config).unwrap();
    assert_eq!(
        *t.relay_sources(),
        RelayResolutionConfig {
            configured_relay_urls: vec!["wss://mine".to_string()],
            hinted_relay_urls: Vec::new(),
            discovery_relay_urls: vec!["wss://find".to_string()],
            fallback_operational_relay_urls: vec!["wss://else".to_string()],
        }
    );
}
