use contextvm_sdk::constants::{
    ANNOUNCEMENT_REQUEST_ID, DEFAULT_LRU_SIZE, EPHEMERAL_GIFT_WRAP_KIND, GIFT_WRAP_KIND,
    INITIALIZE_METHOD, NOTIFICATIONS_INITIALIZED_METHOD, PROMPTS_LIST_KIND, RESOURCES_LIST_KIND,
    RESOURCETEMPLATES_LIST_KIND, SERVER_ANNOUNCEMENT_KIND, SUPPORT_ENCRYPTION,
    SUPPORT_ENCRYPTION_EPHEMERAL, SUPPORT_OPEN_STREAM, SUPPORT_OVERSIZED_TRANSFER,
    TOOLS_LIST_KIND,
};
use contextvm_sdk::json::{Fraction, Json, Number};
use contextvm_sdk::message::{
    JsonRpcError, JsonRpcErrorResponse, JsonRpcMessage, JsonRpcNotification, JsonRpcRequest,
    JsonRpcResponse,
};
use contextvm_sdk::tag::Tag;
use contextvm_sdk::transport::discovery_tags::learn_peer_capabilities;
use contextvm_sdk::transport::open_stream::frame::OpenStreamFrame;
use contextvm_sdk::transport::open_stream::registry::StreamEnd;
use contextvm_sdk::transport::open_stream::writer::{WriterOp, WriterStep};
use contextvm_sdk::transport::open_stream::OpenStreamConfig;
use contextvm_sdk::transport::oversized_transfer::codec::{
    build_oversized_frames, OversizedSenderOptions,
};
use contextvm_sdk::transport::oversized_transfer::errors::OversizedTransferError;
use contextvm_sdk::transport::oversized_transfer::frame::{
    frame_of_notification, OversizedFrame,
};
use contextvm_sdk::transport::oversized_transfer::receiver::OversizedTransferReceiver;
use contextvm_sdk::transport::oversized_transfer::OversizedTransferConfig;
use contextvm_sdk::transport::routing::{
    create_response_tags, select_outbound_gift_wrap_kind,
    select_outbound_notification_gift_wrap_kind,
};
use contextvm_sdk::transport::server::access::is_capability_excluded;
use contextvm_sdk::transport::server::announcement_manager::{
    announcement_initialize, announcement_lists, deletion_tags, AnnouncementManager,
    CommonTagsSnapshot, InitWait, Reaction,
};
use contextvm_sdk::transport::server::config::{
    internal_common_capability_tags, open_stream_support_tags, oversized_support_tags,
    publication_targets, relay_list_tags, NostrServerTransportConfig,
};
use contextvm_sdk::transport::server::correlation_store::ServerEventRouteStore;
use contextvm_sdk::transport::server::open_streams::{OpenStreamDeferral, ServerOpenStreamState};
use contextvm_sdk::transport::server::session_store::SessionStore;
use contextvm_sdk::transport::server::transport::{
    NostrServerTransport, PreparedResponse, ResponsePlan, ServerAction, ServerInbound,
    SweepAction,
};
use contextvm_sdk::transport::client::transport::Screening;
use contextvm_sdk::types::{
    CapabilityExclusion, ClientSession, EncryptionMode, GiftWrapMode, ServerInfo,
};
use serde_json::Value;

fn convert(value: &Value) -> Json {
    match value {
        Value::Null => Json::Null,
        Value::Bool(b) => Json::Bool(*b),
        Value::Number(n) => Json::Number(if let Some(u) = n.as_u64() {
            Number::Unsigned(u)
        } else if let Some(i) = n.as_i64() {
            Number::Signed(i)
        } else {
            let f = n.as_f64().unwrap();
            Number::Fraction(Fraction {
                text: n.to_string(),
                whole: f.fract() == 0.0,
                positive: f > 0.0,
                clamped_u64: f as u64,
                clamped_i64: f as i64,
            })
        }),
        Value::String(s) => Json::Text(s.clone()),
        Value::Array(items) => Json::Array(items.iter().map(convert).collect()),
        Value::Object(map) => {
            Json::Object(map.iter().map(|(k, v)| (k.clone(), convert(v))).collect())
        }
    }
}

fn json(text: &str) -> Json {
    convert(&serde_json::from_str(text).unwrap())
}

fn text(s: &str) -> Json {
    Json::Text(s.to_string())
}

fn num(n: u64) -> Json {
    Json::Number(Number::Unsigned(n))
}

fn at<'a>(value: &'a Json, key: &str) -> &'a Json {
    value.get(key).unwrap()
}


fn make_tag(parts: &[&str]) -> Tag {
    Tag { parts: parts.iter().map(|s| s.to_string()).collect() }
}

fn tag_names(tags: &[Tag]) -> Vec<String> {
    tags.iter().map(|t| t.parts[0].clone()).collect()
}

fn tag_value(tags: &[Tag], name: &str) -> Option<String> {
    tags.iter().find(|t| t.parts[0] == name).and_then(|t| t.parts.get(1).cloned())
}

fn key(n: u8) -> String {
    format!("{n:064x}")
}

// Client sessions.

#[test]
fn test_client_session_creation() {
    let session = ClientSession::new(true, 0);
    assert!(!session.is_initialized);
    assert!(session.is_encrypted);
    assert!(!session.has_sent_common_tags);
    assert!(!session.supports_ephemeral_gift_wrap);
    assert_eq!(session.pending_requests.len(), 0);
    assert_eq!(session.event_to_progress_token.len(), 0);
}

#[test]
fn test_client_session_update_activity() {
    let mut session = ClientSession::new(false, 0);
    let first = session.last_activity;
    session.update_activity(10);
    assert!(session.last_activity > first);
}

#[test]
fn test_pending_request_tracking() {
    let mut session = ClientSession::new(false, 0);
    session.pending_requests.insert("event_abc".to_string(), num(42));
    assert_eq!(session.pending_requests.get("event_abc"), Some(&num(42)));
}

#[test]
fn test_progress_token_tracking() {
    let mut session = ClientSession::new(false, 0);
    session.event_to_progress_token.insert("evt1".to_string(), "token1".to_string());
    session.pending_requests.insert("token1".to_string(), text("evt1"));
    assert_eq!(session.event_to_progress_token.get("evt1"), Some(&"token1".to_string()));
}

#[test]
fn test_cep35_client_session_new_fields_default_false() {
    let session = ClientSession::new(false, 0);
    assert!(!session.has_sent_common_tags);
    assert!(!session.supports_encryption);
    assert!(!session.supports_ephemeral_encryption);
    assert!(!session.supports_oversized_transfer);
}

#[test]
fn test_cep35_capability_or_assign() {
    let mut session = ClientSession::new(false, 0);
    session.supports_encryption |= true;
    session.supports_ephemeral_encryption |= false;
    session.supports_encryption |= false;
    session.supports_ephemeral_encryption |= true;
    assert!(session.supports_encryption, "OR-assign must not downgrade");
    assert!(session.supports_ephemeral_encryption);
    assert!(!session.supports_oversized_transfer);
}

// Authorization.

fn exclusion(method: &str, name: Option<&str>) -> CapabilityExclusion {
    CapabilityExclusion { method: method.to_string(), name: name.map(|n| n.to_string()) }
}

#[test]
fn test_initialize_always_excluded() {
    assert!(is_capability_excluded(&vec![], "initialize", None));
    assert!(is_capability_excluded(&vec![], "notifications/initialized", None));
}

#[test]
fn test_method_excluded_without_name() {
    let exclusions = vec![exclusion("tools/list", None)];
    assert!(is_capability_excluded(&exclusions, "tools/list", None));
    assert!(is_capability_excluded(&exclusions, "tools/list", Some("anything")));
}

#[test]
fn test_method_excluded_with_name() {
    let exclusions = vec![exclusion("tools/call", Some("get_weather"))];
    assert!(is_capability_excluded(&exclusions, "tools/call", Some("get_weather")));
    assert!(!is_capability_excluded(&exclusions, "tools/call", Some("other_tool")));
    assert!(!is_capability_excluded(&exclusions, "tools/call", None));
}

#[test]
fn test_non_excluded_method() {
    let exclusions = vec![exclusion("tools/list", None)];
    assert!(!is_capability_excluded(&exclusions, "tools/call", None));
    assert!(!is_capability_excluded(&exclusions, "resources/list", None));
}

#[test]
fn test_empty_exclusions_non_init_method() {
    assert!(!is_capability_excluded(&vec![], "tools/list", None));
    assert!(!is_capability_excluded(&vec![], "tools/call", Some("x")));
}

// Configuration.

#[test]
fn test_encryption_mode_default() {
    let config = NostrServerTransportConfig::default();
    assert_eq!(config.encryption_mode, EncryptionMode::Optional);
}

#[test]
fn mod_test_config_defaults() {
    let config = NostrServerTransportConfig::default();
    assert_eq!(config.relay_urls, vec!["wss://relay.damus.io".to_string()]);
    assert!(!config.is_announced_server);
    assert_eq!(config.gift_wrap_mode, GiftWrapMode::Optional);
    assert!(config.allowed_public_keys.is_empty());
    assert!(config.excluded_capabilities.is_empty());
    assert_eq!(config.max_sessions, 1000);
    assert_eq!(config.cleanup_interval_ms, 60_000);
    assert_eq!(config.session_timeout_ms, 300_000);
    assert_eq!(config.request_timeout_ms, 60_000);
    assert!(config.server_info.is_none());
    assert!(config.relay_list_urls.is_none());
    assert!(config.bootstrap_relay_urls.is_none());
    assert!(config.publish_relay_list);
    assert!(config.profile_metadata.is_none());
}

#[test]
fn test_config_gift_wrap_mode_default() {
    let config = NostrServerTransportConfig::default();
    assert_eq!(config.gift_wrap_mode, GiftWrapMode::Optional);
}

#[test]
fn spawn_discoverability_publication_publishes_kind_0_and_10002_only() {
    let config = NostrServerTransportConfig::default()
        .with_relay_urls(vec!["wss://relay.example.com".to_string()])
        .with_profile_metadata(json(r#"{ "name": "ffi-server" }"#))
        .with_publish_relay_list(true);
    assert!(config.profile_metadata.is_some(), "profile metadata should be published");
    assert_eq!(
        relay_list_tags(&config),
        Some(vec![make_tag(&["r", "wss://relay.example.com"])]),
        "relay list should be published"
    );
    assert_eq!(relay_list_tags(&config.with_publish_relay_list(false)), None);
}

#[test]
fn the_relay_list_can_differ_from_the_relays() {
    let config = NostrServerTransportConfig::default()
        .with_relay_list_urls(vec!["wss://a".to_string(), "wss://b".to_string()]);
    assert_eq!(
        relay_list_tags(&config),
        Some(vec![make_tag(&["r", "wss://a"]), make_tag(&["r", "wss://b"])])
    );
}

#[test]
fn test_oversized_enabled_by_default() {
    let config = NostrServerTransportConfig::default();
    assert!(config.oversized_transfer.enabled);
}

#[test]
fn test_oversized_support_tags_helper() {
    let mut config = NostrServerTransportConfig::default().with_oversized_enabled(false);
    assert!(oversized_support_tags(&config).is_empty());
    config.oversized_transfer.enabled = true;
    assert_eq!(tag_names(&oversized_support_tags(&config)), vec!["support_oversized_transfer"]);
}

#[test]
fn test_oversized_builders() {
    let config = NostrServerTransportConfig::default().with_oversized_enabled(true);
    assert!(config.oversized_transfer.enabled);
    let config = NostrServerTransportConfig::default()
        .with_oversized_transfer(OversizedTransferConfig::enabled().with_threshold(123));
    assert!(config.oversized_transfer.enabled);
    assert_eq!(config.oversized_transfer.threshold, 123);
}

#[test]
fn test_open_stream_support_tags_helper() {
    assert!(open_stream_support_tags(&OpenStreamConfig::default()).is_empty());
    assert_eq!(
        tag_names(&open_stream_support_tags(&OpenStreamConfig::enabled())),
        vec!["support_open_stream"]
    );
}

#[test]
fn test_internal_common_capability_tags_merges_both() {
    let config = NostrServerTransportConfig::default()
        .with_oversized_enabled(true)
        .with_open_stream(OpenStreamConfig::enabled());
    let names = tag_names(&internal_common_capability_tags(&config));
    assert!(names.contains(&"support_oversized_transfer".to_string()));
    assert!(names.contains(&"support_open_stream".to_string()));
}

// Gift wraps.

#[test]
fn test_select_outbound_gift_wrap_kind_plaintext() {
    assert_eq!(
        select_outbound_gift_wrap_kind(GiftWrapMode::Optional, false, Some(GIFT_WRAP_KIND)),
        None
    );
}

#[test]
fn test_select_outbound_gift_wrap_kind_mirrors_incoming() {
    assert_eq!(
        select_outbound_gift_wrap_kind(
            GiftWrapMode::Optional,
            true,
            Some(EPHEMERAL_GIFT_WRAP_KIND)
        ),
        Some(EPHEMERAL_GIFT_WRAP_KIND)
    );
}

#[test]
fn test_select_outbound_gift_wrap_kind_persistent_mode_overrides_ephemeral() {
    assert_eq!(
        select_outbound_gift_wrap_kind(
            GiftWrapMode::Persistent,
            true,
            Some(EPHEMERAL_GIFT_WRAP_KIND)
        ),
        Some(GIFT_WRAP_KIND)
    );
}

#[test]
fn test_select_outbound_notification_gift_wrap_kind_plaintext() {
    assert_eq!(
        select_outbound_notification_gift_wrap_kind(
            GiftWrapMode::Optional,
            false,
            Some(EPHEMERAL_GIFT_WRAP_KIND),
            true
        ),
        None
    );
}

#[test]
fn test_select_outbound_notification_gift_wrap_kind_mirrors_correlated() {
    assert_eq!(
        select_outbound_notification_gift_wrap_kind(
            GiftWrapMode::Optional,
            true,
            Some(EPHEMERAL_GIFT_WRAP_KIND),
            false
        ),
        Some(EPHEMERAL_GIFT_WRAP_KIND)
    );
}

#[test]
fn test_select_outbound_notification_gift_wrap_kind_falls_back_to_mode_if_correlated_not_allowed() {
    assert_eq!(
        select_outbound_notification_gift_wrap_kind(
            GiftWrapMode::Ephemeral,
            true,
            Some(GIFT_WRAP_KIND),
            false
        ),
        Some(EPHEMERAL_GIFT_WRAP_KIND)
    );
}

#[test]
fn test_select_outbound_notification_gift_wrap_kind_uses_ephemeral_if_supported() {
    assert_eq!(
        select_outbound_notification_gift_wrap_kind(GiftWrapMode::Optional, true, None, true),
        Some(EPHEMERAL_GIFT_WRAP_KIND)
    );
}

#[test]
fn test_select_outbound_notification_gift_wrap_kind_uses_persistent_if_ephemeral_supported_but_mode_persistent(
) {
    assert_eq!(
        select_outbound_notification_gift_wrap_kind(GiftWrapMode::Persistent, true, None, true),
        Some(GIFT_WRAP_KIND)
    );
}

#[test]
fn test_select_outbound_notification_gift_wrap_kind_uses_default_mode_if_ephemeral_not_supported() {
    assert_eq!(
        select_outbound_notification_gift_wrap_kind(GiftWrapMode::Optional, true, None, false),
        Some(GIFT_WRAP_KIND)
    );
}

// The tags of a first response.

fn first_response_tags(
    server_info: Option<ServerInfo>,
    extra_common_tags: Vec<Tag>,
    encryption_mode: EncryptionMode,
) -> Vec<Tag> {
    let snapshot = CommonTagsSnapshot {
        server_info,
        extra_common_tags,
        internal_common_tags: vec![],
        encryption_mode,
        gift_wrap_mode: GiftWrapMode::Optional,
    };
    let mut tags = Vec::new();
    snapshot.append_common_response_tags(&mut tags);
    tags
}

#[test]
fn test_append_common_response_tags_includes_encryption_when_optional() {
    let tags = first_response_tags(None, vec![], EncryptionMode::Optional);
    assert!(tag_names(&tags).contains(&"support_encryption".to_string()));
}

#[test]
fn test_append_common_response_tags_no_encryption_when_disabled() {
    assert!(first_response_tags(None, vec![], EncryptionMode::Disabled).is_empty());
}

#[test]
fn test_append_common_response_tags_includes_ephemeral_tag() {
    let tags = first_response_tags(None, vec![], EncryptionMode::Optional);
    assert!(tag_names(&tags).contains(&"support_encryption_ephemeral".to_string()));
}

#[test]
fn test_append_common_response_tags_includes_server_info() {
    let info = ServerInfo { name: Some("TestServer".to_string()), ..Default::default() };
    let tags = first_response_tags(Some(info), vec![], EncryptionMode::Disabled);
    assert_eq!(tag_value(&tags, "name").as_deref(), Some("TestServer"));
}

#[test]
fn test_append_common_response_tags_extra_tags() {
    let extra = vec![make_tag(&["custom_tag", "value"])];
    let tags = first_response_tags(None, extra, EncryptionMode::Disabled);
    assert_eq!(tag_value(&tags, "custom_tag").as_deref(), Some("value"));
}

// Announcements.

fn make_manager(
    encryption_mode: EncryptionMode,
    gift_wrap_mode: GiftWrapMode,
    server_info: Option<ServerInfo>,
) -> AnnouncementManager {
    AnnouncementManager::new(server_info, encryption_mode, gift_wrap_mode)
}

fn named(name: &str) -> Option<ServerInfo> {
    Some(ServerInfo { name: Some(name.to_string()), ..Default::default() })
}

#[test]
fn server_info_tags_all_fields() {
    let info = ServerInfo {
        name: Some("Test".into()),
        about: Some("A test server".into()),
        website: Some("https://example.com".into()),
        picture: Some("https://example.com/pic.png".into()),
    };
    let mgr = make_manager(EncryptionMode::Disabled, GiftWrapMode::Optional, Some(info));
    let tags = mgr.get_server_info_tags();
    assert_eq!(tags.len(), 4);
    let names = tag_names(&tags);
    assert!(names.contains(&"name".to_string()));
    assert!(names.contains(&"about".to_string()));
    assert!(names.contains(&"website".to_string()));
    assert!(names.contains(&"picture".to_string()));
}

#[test]
fn server_info_tags_partial() {
    let mgr = make_manager(EncryptionMode::Disabled, GiftWrapMode::Optional, named("OnlyName"));
    assert_eq!(mgr.get_server_info_tags().len(), 1);
}

#[test]
fn capability_tags_encryption_enabled() {
    let mgr = make_manager(EncryptionMode::Optional, GiftWrapMode::Persistent, None);
    assert!(tag_names(&mgr.get_capability_tags()).contains(&SUPPORT_ENCRYPTION.to_string()));
}

#[test]
fn capability_tags_ephemeral_enabled() {
    let mgr = make_manager(EncryptionMode::Optional, GiftWrapMode::Optional, None);
    assert!(
        tag_names(&mgr.get_capability_tags()).contains(&SUPPORT_ENCRYPTION_EPHEMERAL.to_string())
    );
}

#[test]
fn capability_tags_ephemeral_excluded() {
    let mgr = make_manager(EncryptionMode::Optional, GiftWrapMode::Persistent, None);
    assert!(
        !tag_names(&mgr.get_capability_tags()).contains(&SUPPORT_ENCRYPTION_EPHEMERAL.to_string())
    );
}

#[test]
fn capability_tags_encryption_disabled() {
    let mgr = make_manager(EncryptionMode::Disabled, GiftWrapMode::Optional, None);
    assert!(mgr.get_capability_tags().is_empty());
}

#[test]
fn common_tags_cached() {
    let mut mgr = make_manager(EncryptionMode::Optional, GiftWrapMode::Optional, named("Cache"));
    let first = mgr.get_common_tags();
    let second = mgr.get_common_tags();
    assert_eq!(first.len(), second.len());
    assert!(mgr.has_cached_common_tags());
}

#[test]
fn set_extra_common_tags_invalidates_cache() {
    let mut mgr = make_manager(EncryptionMode::Disabled, GiftWrapMode::Optional, named("Extra"));
    let before = mgr.get_common_tags();
    assert!(!before.is_empty());
    mgr.set_extra_common_tags(vec![make_tag(&["pmi", "lightning"])]);
    let after = mgr.get_common_tags();
    assert_eq!(after.len(), before.len() + 1);
}

const CAPABILITY: &str = "cap";

fn pricing() -> Vec<Tag> {
    vec![make_tag(&[CAPABILITY, "tool:echo", "100", "sats"])]
}

#[test]
fn pricing_tags_separate_from_common() {
    let mut mgr = make_manager(EncryptionMode::Optional, GiftWrapMode::Optional, None);
    mgr.set_pricing_tags(pricing());
    assert!(!tag_names(&mgr.get_common_tags()).contains(&CAPABILITY.to_string()));
}

#[test]
fn announcement_tags_kind_11316_includes_pricing() {
    let mut mgr = make_manager(EncryptionMode::Optional, GiftWrapMode::Optional, named("Ann"));
    mgr.set_pricing_tags(pricing());

    let ann_names = tag_names(&mgr.get_announcement_tags(SERVER_ANNOUNCEMENT_KIND));
    assert!(ann_names.contains(&CAPABILITY.to_string()));

    let tools_names = tag_names(&mgr.get_announcement_tags(TOOLS_LIST_KIND));
    assert!(!tools_names.contains(&"name".to_string()));
    assert!(tools_names.contains(&CAPABILITY.to_string()));
}

fn plain_manager() -> AnnouncementManager {
    make_manager(EncryptionMode::Disabled, GiftWrapMode::Optional, None)
}

fn announcement_response(result: &str) -> JsonRpcMessage {
    JsonRpcMessage::Response(JsonRpcResponse {
        jsonrpc: "2.0".to_string(),
        id: text(ANNOUNCEMENT_REQUEST_ID),
        result: json(result),
    })
}

fn reaction_to(result: &str) -> Reaction {
    plain_manager().handle_announcement_response(&announcement_response(result))
}

const INITIALIZE_RESULT: &str = r#"{
    "protocolVersion": "2025-11-25",
    "capabilities": {},
    "serverInfo": { "name": "test-server", "version": "0.1.0" }
}"#;

#[test]
fn handle_announcement_response_publishes_init_result() {
    let mut mgr = plain_manager();
    let r = mgr.handle_announcement_response(&announcement_response(INITIALIZE_RESULT));

    let published = r.publish.unwrap();
    assert_eq!(published.kind, SERVER_ANNOUNCEMENT_KIND);
    assert_eq!(published.content, json(INITIALIZE_RESULT));

    let notif = r.dispatch.expect("should dispatch notifications/initialized");
    assert_eq!(notif.message.method(), Some(NOTIFICATIONS_INITIALIZED_METHOD));
    assert_eq!(notif.client_pubkey, ANNOUNCEMENT_REQUEST_ID);

    assert!(mgr.is_initialized());
}

#[test]
fn handle_announcement_response_publishes_tools_list() {
    let r = reaction_to(r#"{ "tools": [{ "name": "echo", "description": "Echo tool" }] }"#);
    assert_eq!(r.publish.unwrap().kind, TOOLS_LIST_KIND);
}

#[test]
fn handle_announcement_response_publishes_resources_list() {
    assert_eq!(reaction_to(r#"{ "resources": [] }"#).publish.unwrap().kind, RESOURCES_LIST_KIND);
}

#[test]
fn handle_announcement_response_publishes_resource_templates_list() {
    assert_eq!(
        reaction_to(r#"{ "resourceTemplates": [] }"#).publish.unwrap().kind,
        RESOURCETEMPLATES_LIST_KIND
    );
}

#[test]
fn handle_announcement_response_publishes_prompts_list() {
    assert_eq!(reaction_to(r#"{ "prompts": [] }"#).publish.unwrap().kind, PROMPTS_LIST_KIND);
}

#[test]
fn handle_announcement_response_error_signals_notify_without_publishing() {
    let response = JsonRpcMessage::ErrorResponse(JsonRpcErrorResponse {
        jsonrpc: "2.0".to_string(),
        id: text(ANNOUNCEMENT_REQUEST_ID),
        error: JsonRpcError { code: -32600, message: "test error".to_string(), data: None },
    });
    let mut mgr = plain_manager();
    let r = mgr.handle_announcement_response(&response);
    assert!(r.publish.is_none());
    assert!(r.signal);
    assert!(mgr.is_initialized());
    assert!(!mgr.handle_announcement_response(&response).signal);
}

#[test]
fn handle_announcement_response_unknown_schema_no_publish() {
    assert!(reaction_to(r#"{ "unknown": "data" }"#).publish.is_none());
}

#[test]
fn publish_public_announcements_dispatches_init_then_capability_lists() {
    let init_msg = announcement_initialize("2025-11-25");
    assert_eq!(init_msg.message.method(), Some(INITIALIZE_METHOD));
    assert_eq!(init_msg.client_pubkey, ANNOUNCEMENT_REQUEST_ID);
    assert_eq!(init_msg.event_id, ANNOUNCEMENT_REQUEST_ID);
    assert!(!init_msg.is_encrypted);

    let lists = announcement_lists(InitWait::Answered);
    let expected = ["tools/list", "resources/list", "resources/templates/list", "prompts/list"];
    assert_eq!(lists.len(), expected.len());
    for (msg, method) in lists.iter().zip(expected) {
        assert_eq!(msg.message.method(), Some(method));
        assert_eq!(msg.client_pubkey, ANNOUNCEMENT_REQUEST_ID);
    }
    assert_eq!(announcement_lists(InitWait::TimedOut), lists);
    assert!(announcement_lists(InitWait::Cancelled).is_empty());
    assert!(announcement_lists(InitWait::NotDispatched).is_empty());
}

#[test]
fn handle_init_result_dispatches_notification_before_notify_signal() {
    let r = reaction_to(
        r#"{ "protocolVersion": "2025-11-25", "capabilities": {}, "serverInfo": { "name": "test" } }"#,
    );
    assert!(r.signal, "init_notify should have been signaled");
    assert_eq!(
        r.dispatch.unwrap().message.method(),
        Some(NOTIFICATIONS_INITIALIZED_METHOD)
    );
}

#[test]
fn a_server_without_a_name_does_not_announce_itself() {
    let mut server = server_with(NostrServerTransportConfig::default());
    assert_eq!(server.announce(), None);
    let mut server =
        server_with(NostrServerTransportConfig::default().with_server_info(named("S").unwrap()));
    server.set_announcement_pricing_tags(pricing());
    server.set_announcement_extra_tags(vec![make_tag(&["x", "y"])]);
    assert_eq!(
        tag_names(&server.announce().unwrap()),
        vec![
            "name",
            "support_encryption",
            "support_encryption_ephemeral",
            "x",
            "support_oversized_transfer",
            CAPABILITY
        ]
    );
    let tools = server.publish_tools(vec![json(r#"{ "name": "echo" }"#)]);
    assert_eq!(tools.kind, TOOLS_LIST_KIND);
    assert_eq!(tools.content, json(r#"{ "tools": [{ "name": "echo" }] }"#));
    assert_eq!(tools.tags, pricing());
    assert_eq!(server.publish_resources(vec![]).kind, RESOURCES_LIST_KIND);
    assert_eq!(server.publish_prompts(vec![]).kind, PROMPTS_LIST_KIND);
    assert_eq!(server.publish_resource_templates(vec![]).kind, RESOURCETEMPLATES_LIST_KIND);
    assert_eq!(
        deletion_tags().iter().map(|t| t.parts[1].as_str()).collect::<Vec<_>>(),
        vec!["11316", "11317", "11318", "11319", "11320"]
    );
}

fn server_with(config: NostrServerTransportConfig) -> NostrServerTransport {
    let mut server = NostrServerTransport::new(config);
    server.start();
    server
}

fn common_tags_of(config: NostrServerTransportConfig) -> Vec<String> {
    let mut server = server_with(config.with_server_info(ServerInfo::default()));
    tag_names(&server.announce().unwrap())
}

fn first_response_names(config: NostrServerTransportConfig) -> Vec<String> {
    let mut server = server_with(config);
    receive(&mut server, &from(1, 1), request(num(1), "initialize", None));
    match server.send_response(&key(1), response(Json::Null)) {
        ResponsePlan::Send(p) => tag_names(&p.tags),
        other => panic!("expected to send, got {other:?}"),
    }
}

fn with_oversized(enabled: bool) -> NostrServerTransportConfig {
    NostrServerTransportConfig::default().with_oversized_enabled(enabled)
}

#[test]
fn test_announcement_includes_oversized_tag_when_enabled() {
    assert!(
        common_tags_of(with_oversized(true)).contains(&"support_oversized_transfer".to_string())
    );
}

#[test]
fn test_announcement_omits_oversized_tag_when_disabled() {
    assert!(
        !common_tags_of(with_oversized(false)).contains(&"support_oversized_transfer".to_string())
    );
}

#[test]
fn test_first_response_snapshot_includes_oversized_tag_when_enabled() {
    let mut mgr = plain_manager();
    mgr.set_internal_common_tags(internal_common_capability_tags(&with_oversized(true)));
    let mut tags = Vec::new();
    mgr.common_tags_snapshot().append_common_response_tags(&mut tags);
    assert!(tag_names(&tags).contains(&"support_oversized_transfer".to_string()));
    assert!(first_response_names(with_oversized(true))
        .contains(&"support_oversized_transfer".to_string()));
}

#[test]
fn test_first_response_snapshot_omits_oversized_tag_when_disabled() {
    let mut mgr = plain_manager();
    mgr.set_internal_common_tags(internal_common_capability_tags(&with_oversized(false)));
    let mut tags = Vec::new();
    mgr.common_tags_snapshot().append_common_response_tags(&mut tags);
    assert!(!tag_names(&tags).contains(&"support_oversized_transfer".to_string()));
    assert!(!first_response_names(with_oversized(false))
        .contains(&"support_oversized_transfer".to_string()));
}

#[test]
fn test_announcement_includes_open_stream_tag_when_enabled() {
    let config =
        NostrServerTransportConfig::default().with_open_stream(OpenStreamConfig::enabled());
    assert!(common_tags_of(config).contains(&"support_open_stream".to_string()));
}

#[test]
fn test_announcement_omits_open_stream_tag_when_disabled() {
    let config = NostrServerTransportConfig::default();
    assert!(!common_tags_of(config).contains(&"support_open_stream".to_string()));
}

fn learned_from(
    config: NostrServerTransportConfig,
    tag: &str,
) -> contextvm_sdk::transport::server::session_store::SessionSnapshot {
    let mut server = server_with(config);
    let mut inbound = from(1, 1);
    inbound.tags.push(make_tag(&[tag]));
    receive(&mut server, &inbound, notification("notifications/x", None));
    server.session_snapshot(&key(1)).unwrap()
}

#[test]
fn test_server_learns_client_oversized_only_when_enabled() {
    let discovered = learn_peer_capabilities(&vec![make_tag(&[SUPPORT_OVERSIZED_TRANSFER])]);
    assert!(discovered.supports_oversized_transfer);
    assert!(!learned_from(with_oversized(false), SUPPORT_OVERSIZED_TRANSFER)
        .supports_oversized_transfer);
    assert!(learned_from(with_oversized(true), SUPPORT_OVERSIZED_TRANSFER)
        .supports_oversized_transfer);
}

#[test]
fn test_server_learns_client_open_stream_only_when_enabled() {
    let discovered = learn_peer_capabilities(&vec![make_tag(&[SUPPORT_OPEN_STREAM])]);
    assert!(discovered.supports_open_stream);
    let off = NostrServerTransportConfig::default();
    assert!(!learned_from(off, SUPPORT_OPEN_STREAM).supports_open_stream);
    let on = NostrServerTransportConfig::default().with_open_stream(OpenStreamConfig::enabled());
    assert!(learned_from(on, SUPPORT_OPEN_STREAM).supports_open_stream);
}

// The session store.

fn routes() -> ServerEventRouteStore {
    ServerEventRouteStore::new()
}

fn edit(store: &mut SessionStore, client: &str, change: fn(&mut ClientSession)) {
    let mut session = store.checkout(client).unwrap();
    change(&mut session);
    store.restore(client, session);
}

#[test]
fn create_and_retrieve_session() {
    let mut store = SessionStore::new();
    let r = routes();
    assert!(store.get_or_create_session("client-1", true, &r, 0).created);

    let snap = store.get_session("client-1").unwrap();
    assert!(snap.is_encrypted);
    assert!(!snap.is_initialized);
}

#[test]
fn get_or_create_returns_existing() {
    let mut store = SessionStore::new();
    let r = routes();
    assert!(store.get_or_create_session("client-1", false, &r, 0).created);
    assert!(!store.get_or_create_session("client-1", true, &r, 0).created);
    assert!(store.get_session("client-1").unwrap().is_encrypted);
}

#[test]
fn mark_initialized() {
    let mut store = SessionStore::new();
    store.get_or_create_session("client-1", false, &routes(), 0);
    assert!(store.mark_initialized("client-1"));
    assert!(store.get_session("client-1").unwrap().is_initialized);
}

#[test]
fn mark_initialized_unknown_returns_false() {
    let mut store = SessionStore::new();
    assert!(!store.mark_initialized("unknown"));
}

#[test]
fn remove_session() {
    let mut store = SessionStore::new();
    store.get_or_create_session("client-1", false, &routes(), 0);
    assert!(store.remove_session("client-1"));
    assert!(store.get_session("client-1").is_none());
}

#[test]
fn remove_unknown_returns_false() {
    let mut store = SessionStore::new();
    assert!(!store.remove_session("unknown"));
}

#[test]
fn clear_all_sessions() {
    let mut store = SessionStore::new();
    let r = routes();
    store.get_or_create_session("client-1", false, &r, 0);
    store.get_or_create_session("client-2", true, &r, 0);
    store.clear();
    assert_eq!(store.session_count(), 0);
    assert!(store.get_session("client-1").is_none());
    assert!(store.get_session("client-2").is_none());
}

#[test]
fn get_all_sessions() {
    let mut store = SessionStore::new();
    let r = routes();
    store.get_or_create_session("client-1", false, &r, 0);
    store.get_or_create_session("client-2", true, &r, 0);

    let all = store.get_all_sessions();
    assert_eq!(all.len(), 2);
    let keys: Vec<&str> = all.iter().map(|(k, _)| k.as_str()).collect();
    assert!(keys.contains(&"client-1"));
    assert!(keys.contains(&"client-2"));
}

#[test]
fn new_session_capability_fields_default_false() {
    let mut store = SessionStore::new();
    store.get_or_create_session("client-1", false, &routes(), 0);
    let session = store.checkout("client-1").unwrap();
    assert!(!session.has_sent_common_tags);
    assert!(!session.supports_encryption);
    assert!(!session.supports_ephemeral_encryption);
    assert!(!session.supports_oversized_transfer);
}

#[test]
fn snapshot_surfaces_learned_capabilities() {
    let mut store = SessionStore::new();
    store.get_or_create_session("client-1", false, &routes(), 0);

    let snap = store.get_session("client-1").unwrap();
    assert!(!snap.supports_encryption);
    assert!(!snap.supports_ephemeral_encryption);
    assert!(!snap.supports_oversized_transfer);
    assert!(!snap.supports_open_stream);

    edit(&mut store, "client-1", |session| {
        session.supports_encryption = true;
        session.supports_ephemeral_encryption = true;
        session.supports_oversized_transfer = true;
        session.supports_open_stream = true;
    });

    let snap = store.get_session("client-1").unwrap();
    assert!(snap.supports_encryption);
    assert!(snap.supports_ephemeral_encryption);
    assert!(snap.supports_oversized_transfer);
    assert!(snap.supports_open_stream);

    let all = store.get_all_sessions();
    let (_, snap_all) = all.iter().find(|(k, _)| k == "client-1").unwrap();
    assert!(snap_all.supports_encryption);
    assert!(snap_all.supports_ephemeral_encryption);
    assert!(snap_all.supports_oversized_transfer);
    assert!(snap_all.supports_open_stream);
}

#[test]
fn has_sent_common_tags_flag() {
    let mut store = SessionStore::new();
    store.get_or_create_session("client-1", false, &routes(), 0);
    assert!(!store.get_session("client-1").unwrap().has_sent_common_tags);
    assert!(store.mark_common_tags_sent("client-1"));
    assert!(store.get_session("client-1").unwrap().has_sent_common_tags);
}

#[test]
fn capability_or_assign_persists() {
    let mut store = SessionStore::new();
    store.get_or_create_session("client-1", false, &routes(), 0);
    edit(&mut store, "client-1", |session| {
        session.supports_encryption |= true;
        session.supports_ephemeral_encryption |= false;
    });
    edit(&mut store, "client-1", |session| {
        session.supports_encryption |= false;
        session.supports_ephemeral_encryption |= true;
    });
    let session = store.get_session("client-1").unwrap();
    assert!(session.supports_encryption, "OR-assign must not downgrade");
    assert!(session.supports_ephemeral_encryption);
    assert!(!session.supports_oversized_transfer);
}

#[test]
fn capability_fields_independent_per_client() {
    let mut store = SessionStore::new();
    let r = routes();
    store.get_or_create_session("client-a", false, &r, 0);
    store.get_or_create_session("client-b", false, &r, 0);
    edit(&mut store, "client-a", |sa| {
        sa.supports_encryption = true;
        sa.has_sent_common_tags = true;
    });
    let sa = store.get_session("client-a").unwrap();
    let sb = store.get_session("client-b").unwrap();
    assert!(sa.supports_encryption);
    assert!(sa.has_sent_common_tags);
    assert!(!sb.supports_encryption);
    assert!(!sb.has_sent_common_tags);
}

#[test]
fn get_or_create_preserves_capability_fields() {
    let mut store = SessionStore::new();
    let r = routes();
    store.get_or_create_session("client-1", false, &r, 0);
    edit(&mut store, "client-1", |session| {
        session.supports_encryption = true;
        session.has_sent_common_tags = true;
    });
    assert!(!store.get_or_create_session("client-1", true, &r, 0).created);
    let session = store.get_session("client-1").unwrap();
    assert!(session.supports_encryption);
    assert!(session.has_sent_common_tags);
}

#[test]
fn clear_resets_capability_fields() {
    let mut store = SessionStore::new();
    let r = routes();
    store.get_or_create_session("client-1", false, &r, 0);
    edit(&mut store, "client-1", |s| s.supports_encryption = true);
    store.clear();
    store.get_or_create_session("client-1", false, &r, 0);
    let session = store.get_session("client-1").unwrap();
    assert!(!session.supports_encryption);
    assert!(!session.has_sent_common_tags);
}

#[test]
fn lru_eviction_drops_oldest_session() {
    let mut store = SessionStore::with_capacity(3);
    let r = routes();
    for client in ["a", "b", "c", "d"] {
        store.get_or_create_session(client, false, &r, 0);
    }
    assert!(store.get_session("a").is_none(), "a should be evicted");
    assert!(store.get_session("b").is_some());
    assert!(store.get_session("c").is_some());
    assert!(store.get_session("d").is_some());
    assert_eq!(store.session_count(), 3);
}

#[test]
fn eviction_callback_fires_on_lru_eviction() {
    let mut store = SessionStore::with_capacity(2);
    let r = routes();
    let mut evicted = Vec::new();
    for client in ["a", "b", "c"] {
        evicted.extend(store.get_or_create_session(client, false, &r, 0).evicted);
    }
    assert_eq!(evicted.len(), 1);
    assert_eq!(evicted[0], "a");
}

#[test]
fn eviction_safety_recreates_session_with_active_routes() {
    let mut store = SessionStore::with_capacity(2);
    let mut r = routes();
    store.get_or_create_session("a", true, &r, 0);
    store.get_or_create_session("b", false, &r, 0);
    r.register("evt1".into(), "a".into(), num(1), None, 0);
    let admitted = store.get_or_create_session("c", false, &r, 0);

    assert!(store.get_session("a").is_some(), "session with active routes must survive eviction");
    assert!(store.get_session("b").is_none(), "b should be evicted");
    assert!(admitted.created);
    assert_eq!(admitted.evicted, Some("b".to_string()));
    assert!(store.get_session("a").unwrap().is_encrypted);
    assert!(store.get_session("c").is_some());
    assert_eq!(store.session_count(), 2);
}

#[test]
fn with_one_place_a_busy_client_keeps_it() {
    let mut store = SessionStore::with_capacity(1);
    let mut r = routes();
    store.get_or_create_session("a", false, &r, 0);
    r.register("evt1".into(), "a".into(), num(1), None, 0);
    let admitted = store.get_or_create_session("b", false, &r, 0);
    assert_eq!(admitted.evicted, Some("b".to_string()));
    assert!(store.get_session("a").is_some());
    assert!(store.get_session("b").is_none());
}

#[test]
fn with_capacity_sets_limit() {
    let mut store = SessionStore::with_capacity(5);
    let r = routes();
    for i in 0..10 {
        store.get_or_create_session(&format!("client-{i}"), false, &r, 0);
    }
    assert_eq!(store.session_count(), 5);
}

// Routes.

#[test]
fn pop_on_empty_returns_none() {
    let mut store = ServerEventRouteStore::new();
    assert!(store.pop("nonexistent").is_none());
}

#[test]
fn get_returns_without_removing() {
    let mut store = ServerEventRouteStore::new();
    store.register("e1".into(), "pk1".into(), text("r1"), None, 0);
    assert_eq!(store.get("e1").as_deref(), Some("pk1"));
    assert_eq!(store.get("e1").as_deref(), Some("pk1"));
}

#[test]
fn pop_removes_entry() {
    let mut store = ServerEventRouteStore::new();
    store.register("e1".into(), "pk1".into(), text("r1"), None, 0);
    let route = store.pop("e1").unwrap();
    assert_eq!(route.client_pubkey, "pk1");
    assert!(store.pop("e1").is_none());
}

#[test]
fn remove_for_client_only_removes_matching() {
    let mut store = ServerEventRouteStore::new();
    store.register("e1".into(), "pk1".into(), text("r1"), None, 0);
    store.register("e2".into(), "pk2".into(), text("r2"), None, 0);
    store.register("e3".into(), "pk1".into(), text("r3"), None, 0);

    assert_eq!(store.remove_for_client("pk1"), 2);

    assert!(store.get("e1").is_none());
    assert!(store.get("e3").is_none());
    assert_eq!(store.get("e2").as_deref(), Some("pk2"));
}

#[test]
fn remove_for_client_noop_when_no_match() {
    let mut store = ServerEventRouteStore::new();
    store.register("e1".into(), "pk1".into(), text("r1"), None, 0);
    assert_eq!(store.remove_for_client("pk_other"), 0);
    assert_eq!(store.get("e1").as_deref(), Some("pk1"));
}

#[test]
fn clear_empties_store() {
    let mut store = ServerEventRouteStore::new();
    store.register("e1".into(), "pk1".into(), text("r1"), None, 0);
    store.register("e2".into(), "pk2".into(), text("r2"), None, 0);
    store.clear();
    assert!(store.get("e1").is_none());
    assert!(store.get("e2").is_none());
}

#[test]
fn correlation_store_default_store_is_bounded() {
    let mut store = ServerEventRouteStore::new();
    for i in 0..=DEFAULT_LRU_SIZE {
        store.register(format!("e{i}"), "pk1".into(), num(i as u64), None, 0);
    }
    assert_eq!(store.event_route_count(), DEFAULT_LRU_SIZE);
    assert!(!store.has_event_route("e0"));
    assert!(store.has_event_route(&format!("e{DEFAULT_LRU_SIZE}")));
}

#[test]
fn sweep_stale_routes_removes_only_expired() {
    let mut store = ServerEventRouteStore::new();
    store.register("old".into(), "pk1".into(), num(1), Some("tok1".into()), 0);
    store.register("fresh".into(), "pk2".into(), num(2), None, 20);

    let swept = store.sweep_stale_routes(20, 10);
    assert_eq!(swept.len(), 1);
    assert_eq!(swept[0], "old");
    assert!(!store.has_event_route("old"));
    assert!(store.has_event_route("fresh"));
    assert!(!store.has_progress_token("tok1"));
    assert!(!store.has_active_routes_for_client("pk1"));
}

#[test]
fn sweep_stale_routes_returns_zero_when_nothing_expired() {
    let mut store = ServerEventRouteStore::new();
    store.register("e1".into(), "pk1".into(), num(1), None, 0);
    assert!(store.sweep_stale_routes(0, 60_000).is_empty());
    assert!(store.has_event_route("e1"));
}

#[test]
fn routes_are_found_by_token_and_client() {
    let mut store = ServerEventRouteStore::with_max_routes(2);
    store.register("e1".into(), "pk1".into(), num(1), Some("t1".into()), 0);
    store.register("e2".into(), "pk1".into(), num(2), Some("t2".into()), 0);
    assert_eq!(store.get_event_id_by_progress_token("t1").as_deref(), Some("e1"));
    assert_eq!(store.progress_token_count(), 2);
    store.register("e3".into(), "pk2".into(), num(3), None, 0);
    assert!(!store.has_event_route("e1"));
    assert!(!store.has_progress_token("t1"));
    assert!(store.has_active_routes_for_client("pk1"));
    store.pop("e2");
    assert!(!store.has_active_routes_for_client("pk1"));
    assert_eq!(store.get_route("e3").unwrap().original_request_id, num(3));
}

// The transport.

fn from(client: u8, event: u8) -> ServerInbound {
    ServerInbound {
        sender_pubkey: key(client),
        event_id: key(event),
        wrap_kind: None,
        tags: vec![],
    }
}

fn request(id: Json, method: &str, params: Option<&str>) -> JsonRpcMessage {
    JsonRpcMessage::Request(JsonRpcRequest {
        jsonrpc: "2.0".to_string(),
        id,
        method: method.to_string(),
        params: params.map(json),
    })
}

fn notification(method: &str, params: Option<Json>) -> JsonRpcMessage {
    JsonRpcMessage::Notification(JsonRpcNotification {
        jsonrpc: "2.0".to_string(),
        method: method.to_string(),
        params,
    })
}

fn response(id: Json) -> JsonRpcMessage {
    JsonRpcMessage::Response(JsonRpcResponse {
        jsonrpc: "2.0".to_string(),
        id,
        result: json(r#"{ "ok": true }"#),
    })
}

fn receive(server: &mut NostrServerTransport, inbound: &ServerInbound, m: JsonRpcMessage) -> ServerAction {
    receive_at(server, 0, inbound, m)
}

fn receive_at(
    server: &mut NostrServerTransport,
    now: u64,
    inbound: &ServerInbound,
    m: JsonRpcMessage,
) -> ServerAction {
    assert!(server.has_room_for(&inbound.sender_pubkey));
    server.receive(now, inbound, m).action
}

fn is_forwarded(action: &ServerAction) -> bool {
    matches!(action, ServerAction::Forward(_))
}

fn sent(plan: ResponsePlan) -> PreparedResponse {
    match plan {
        ResponsePlan::Send(p) => p,
        other => panic!("expected to send, got {other:?}"),
    }
}

fn failure(plan: ResponsePlan) -> String {
    match plan {
        ResponsePlan::Fail(e) => e,
        other => panic!("expected a failure, got {other:?}"),
    }
}

#[test]
fn test_cleanup_sessions_removes_expired() {
    let mut server = server_with(NostrServerTransportConfig::default());
    receive(&mut server, &from(1, 9), request(num(1), "tools/list", None));

    assert_eq!(server.cleanup_sessions(5, 300_000), 0);
    assert!(server.session_snapshot(&key(1)).is_some());

    assert_eq!(server.cleanup_sessions(5, 1), 1);
    assert!(server.session_snapshot(&key(1)).is_none());
    assert_eq!(
        failure(server.send_response(&key(9), response(Json::Null))),
        format!("No client found for event {}", key(9))
    );
}

#[test]
fn test_cleanup_preserves_active_sessions() {
    let mut server = server_with(NostrServerTransportConfig::default());
    receive(&mut server, &from(1, 9), notification("notifications/x", None));
    assert_eq!(server.cleanup_sessions(0, 300_000), 0);
    assert!(server.session_snapshot(&key(1)).is_some());
    assert_eq!(server.cleanup_sessions(300_000, 300_000), 0);
    assert_eq!(server.clean_up(300_001), (1, 0));
}

#[test]
fn a_request_that_waits_too_long_is_forgotten() {
    let mut server = server_with(NostrServerTransportConfig::default().with_request_timeout(50));
    receive(&mut server, &from(1, 9), request(num(1), "tools/list", None));
    assert_eq!(server.sweep_stale_routes(49), 0);
    assert_eq!(server.clean_up(50), (0, 1));
    assert!(matches!(
        server.send_response(&key(9), response(Json::Null)),
        ResponsePlan::Fail(_)
    ));
}

#[test]
fn a_request_is_answered_once_under_the_id_of_its_client() {
    let mut server = server_with(NostrServerTransportConfig::default());
    let mut inbound = from(1, 9);
    inbound.wrap_kind = Some(EPHEMERAL_GIFT_WRAP_KIND);
    match receive(&mut server, &inbound, request(text("mine"), "tools/list", None)) {
        ServerAction::Forward(incoming) => {
            assert_eq!(incoming.client_pubkey, key(1));
            assert_eq!(incoming.event_id, key(9));
            assert!(incoming.is_encrypted);
        }
        _ => panic!("expected to forward"),
    }

    let p = sent(server.send_response(&key(9), response(num(77))));
    assert_eq!(p.recipient, key(1));
    assert_eq!(p.response.id(), Some(&text("mine")));
    assert_eq!(p.base_tags, create_response_tags(&key(1), &key(9)));
    assert!(p.tags.len() > p.base_tags.len());
    assert!(p.is_encrypted);
    assert_eq!(p.gift_wrap_kind, Some(EPHEMERAL_GIFT_WRAP_KIND));
    assert_eq!(p.oversized_token, None);
    assert!(matches!(
        server.send_response(&key(9), response(num(77))),
        ResponsePlan::Fail(_)
    ));

    server.response_failed(p, 5);
    let again = sent(server.send_response(&key(9), response(num(77))));
    assert_eq!(again.response.id(), Some(&text("mine")));
    assert_eq!(again.tags, again.base_tags);
    assert_eq!(again.gift_wrap_kind, Some(EPHEMERAL_GIFT_WRAP_KIND));
    server.response_sent(&again);
    let note = server.send_notification(&key(1), &notification("n", None), Some(&key(9))).unwrap();
    assert_eq!(note.gift_wrap_kind, Some(EPHEMERAL_GIFT_WRAP_KIND));
}

#[test]
fn a_response_fails_for_each_reason() {
    let mut server = server_with(NostrServerTransportConfig::default());
    assert_eq!(
        failure(server.send_response("evt", response(Json::Null))),
        "No client found for event evt"
    );

    let mut inbound = from(1, 2);
    inbound.sender_pubkey = "nobody".to_string();
    receive(&mut server, &inbound, request(num(1), "tools/list", None));
    assert!(!failure(server.send_response(&key(2), response(Json::Null))).is_empty());

    let mut inbound = from(1, 2);
    inbound.event_id = "short".to_string();
    receive(&mut server, &inbound, request(num(1), "tools/list", None));
    assert!(!failure(server.send_response("short", response(Json::Null))).is_empty());

    let mut tiny = server_with(NostrServerTransportConfig::default().with_max_sessions(1));
    receive(&mut tiny, &from(1, 1), request(num(1), "tools/list", None));
    assert!(!tiny.has_room_for(&key(2)));
    assert!(tiny.has_room_for(&key(1)));

    assert_eq!(
        server.send_notification("x", &notification("n", None), None).unwrap_err(),
        "No session for x"
    );
    assert!(server.send_notification("nobody", &notification("n", None), None).is_err());
    assert!(server.send_notification(&key(1), &notification("n", None), Some("short")).is_err());
}

#[test]
fn the_server_is_introduced_once() {
    let mut server = server_with(NostrServerTransportConfig::default());
    receive(&mut server, &from(1, 1), request(num(1), "initialize", None));
    receive(&mut server, &from(1, 2), request(num(2), "tools/list", None));
    let first = sent(server.send_response(&key(1), response(Json::Null)));
    assert_eq!(
        tag_names(&first.tags),
        vec![
            "p",
            "e",
            "support_encryption",
            "support_encryption_ephemeral",
            "support_oversized_transfer"
        ]
    );
    let second = sent(server.send_response(&key(2), response(Json::Null)));
    assert_eq!(tag_names(&second.tags), vec!["p", "e"]);
}

#[test]
fn only_listed_clients_get_through() {
    let config = NostrServerTransportConfig::default()
        .with_allowed_public_keys(vec![key(1)])
        .with_excluded_capabilities(vec![exclusion("tools/call", Some("open"))])
        .with_announced_server(true);
    let mut server = server_with(config);
    assert!(is_forwarded(&receive(&mut server, &from(1, 1), request(num(1), "tools/list", None))));
    assert!(is_forwarded(&receive(
        &mut server,
        &from(2, 2),
        request(num(1), "tools/call", Some(r#"{ "name": "open" }"#))
    )));
    assert!(is_forwarded(&receive(&mut server, &from(3, 3), request(num(1), "initialize", None))));

    match receive(&mut server, &from(4, 4), request(num(7), "tools/list", None)) {
        ServerAction::Denied(Some(reply)) => {
            assert_eq!(reply.recipient, key(4));
            assert_eq!(
                reply.message,
                JsonRpcMessage::ErrorResponse(JsonRpcErrorResponse {
                    jsonrpc: "2.0".to_string(),
                    id: num(7),
                    error: JsonRpcError {
                        code: -32000,
                        message: "Unauthorized".to_string(),
                        data: None,
                    },
                })
            );
            assert_eq!(tag_names(&reply.tags)[..2], ["p".to_string(), "e".to_string()]);
            assert!(reply.tags.len() > 2);
            assert!(!reply.is_encrypted);
        }
        _ => panic!("expected a refusal"),
    }
    assert!(server.session_snapshot(&key(4)).is_none());
    assert!(matches!(
        receive(&mut server, &from(4, 5), notification("notifications/x", None)),
        ServerAction::Denied(None)
    ));

    let quiet = NostrServerTransportConfig::default().with_allowed_public_keys(vec![key(1)]);
    let mut server = server_with(quiet);
    assert!(matches!(
        receive(&mut server, &from(4, 4), request(num(7), "tools/list", None)),
        ServerAction::Denied(None)
    ));
}

#[test]
fn a_client_that_was_let_in_is_told_the_tags_once_even_when_refused() {
    let config = NostrServerTransportConfig::default()
        .with_allowed_public_keys(vec![key(1)])
        .with_announced_server(true);
    let mut server = server_with(config);
    receive(&mut server, &from(2, 1), request(num(1), "initialize", None));
    let mut refused = |event: u8| match receive(
        &mut server,
        &from(2, event),
        request(num(1), "tools/list", None),
    ) {
        ServerAction::Denied(Some(reply)) => reply.tags.len(),
        _ => panic!("expected a refusal"),
    };
    assert!(refused(2) > 2);
    assert_eq!(refused(3), 2);
}

#[test]
fn events_are_screened() {
    let mut server = server_with(NostrServerTransportConfig::default());
    assert_eq!(server.screen_event(25910, "a"), Screening::Plain);
    assert_eq!(server.screen_event(GIFT_WRAP_KIND, "a"), Screening::Unwrap);
    server.mark_unwrapped("a".to_string());
    assert_eq!(server.screen_event(GIFT_WRAP_KIND, "a"), Screening::Drop);

    let required =
        NostrServerTransportConfig::default().with_encryption_mode(EncryptionMode::Required);
    assert_eq!(server_with(required).screen_event(25910, "a"), Screening::Drop);
    let disabled =
        NostrServerTransportConfig::default().with_encryption_mode(EncryptionMode::Disabled);
    assert_eq!(server_with(disabled).screen_event(GIFT_WRAP_KIND, "a"), Screening::Drop);
    let persistent =
        NostrServerTransportConfig::default().with_gift_wrap_mode(GiftWrapMode::Persistent);
    assert_eq!(
        server_with(persistent).screen_event(EPHEMERAL_GIFT_WRAP_KIND, "a"),
        Screening::Drop
    );
}

#[test]
fn a_notification_reaches_every_client_with_an_open_session() {
    let mut server = server_with(NostrServerTransportConfig::default());
    for n in 1..=3 {
        receive(&mut server, &from(n, n), request(num(1), "initialize", None));
    }
    for n in [1, 3] {
        receive(&mut server, &from(n, n + 10), notification("notifications/initialized", None));
    }
    let mut wrapped = from(3, 20);
    wrapped.wrap_kind = Some(EPHEMERAL_GIFT_WRAP_KIND);
    receive(&mut server, &wrapped, notification("notifications/x", None));

    let replies = server.broadcast_notification(&notification("notifications/changed", None));
    assert_eq!(replies.iter().map(|r| r.recipient.clone()).collect::<Vec<_>>(), vec![key(3), key(1)]);
    assert!(replies[0].is_encrypted);
    assert_eq!(replies[0].gift_wrap_kind, Some(EPHEMERAL_GIFT_WRAP_KIND));
    assert!(!replies[1].is_encrypted);
    assert_eq!(replies[1].gift_wrap_kind, None);
}

fn call(token: &str) -> JsonRpcMessage {
    request(
        num(5),
        "tools/call",
        Some(&format!(r#"{{ "name": "t", "_meta": {{ "progressToken": "{token}" }} }}"#)),
    )
}

#[test]
fn an_upload_is_accepted_and_reassembled() {
    let mut server = server_with(NostrServerTransportConfig::default());
    let payload = r#"{"jsonrpc":"2.0","id":5,"method":"tools/list"}"#;
    let options =
        OversizedSenderOptions::new("tok").with_chunk_size(7).with_accept_handshake(true);
    let frames = build_oversized_frames(payload, &options).unwrap().into_ordered();
    let (end, mid) = frames.split_last().unwrap();
    for (i, frame) in mid.iter().enumerate() {
        match receive(
            &mut server,
            &from(1, i as u8),
            JsonRpcMessage::Notification(frame.duplicate()),
        ) {
            ServerAction::Oversized { accept, payload: None } => {
                assert_eq!(accept.is_some(), i == 0);
                if let Some(reply) = accept {
                    assert_eq!(reply.recipient, key(1));
                    assert_eq!(reply.tags, create_response_tags(&key(1), &key(0)));
                    match reply.message {
                        JsonRpcMessage::Notification(n) => {
                            assert_eq!(frame_of_notification(&n), Some(OversizedFrame::Accept));
                            assert_eq!(at(n.params.as_ref().unwrap(), "progress"), &num(2));
                        }
                        other => panic!("expected a notification, got {other:?}"),
                    }
                }
            }
            _ => panic!("expected an oversized frame without a payload"),
        }
    }
    let last = from(1, 99);
    match receive(&mut server, &last, JsonRpcMessage::Notification(end.duplicate())) {
        ServerAction::Oversized { accept: None, payload: Some(p) } => {
            assert_eq!(p.text, payload);
            assert_eq!(p.token, Some("tok".to_string()));
            let incoming = server.dispatch_reassembled(
                0,
                &last,
                p.token,
                request(num(5), "tools/list", None),
            );
            assert_eq!(incoming.event_id, key(99));
        }
        _ => panic!("expected the payload"),
    }
    let answer = sent(server.send_response(&key(99), response(Json::Null)));
    assert_eq!(answer.response.id(), Some(&num(5)));
    assert_eq!(answer.route.progress_token, Some("tok".to_string()));
}

#[test]
fn an_oversized_response_goes_out_in_chunks() {
    let mut server = server_with(NostrServerTransportConfig::default());
    let mut inbound = from(1, 1);
    inbound.tags.push(make_tag(&[SUPPORT_OVERSIZED_TRANSFER]));
    receive(&mut server, &inbound, call("tok"));
    let p = sent(server.send_response(&key(1), response(Json::Null)));
    assert_eq!(p.oversized_token, Some("tok".to_string()));

    let replies = server.send_oversized_response(&p, "0123456789", 4).unwrap();
    assert_eq!(replies.len(), 5);
    assert_eq!(replies[0].tags, p.tags);
    let mut receiver = OversizedTransferReceiver::new();
    let mut got = None;
    for (i, reply) in replies.iter().enumerate() {
        assert_eq!(reply.recipient, key(1));
        if i > 0 {
            assert_eq!(reply.tags, p.base_tags);
        }
        match &reply.message {
            JsonRpcMessage::Notification(n) => got = receiver.process_frame(0, n).unwrap(),
            other => panic!("expected a notification, got {other:?}"),
        }
    }
    assert_eq!(got, Some("0123456789".to_string()));
    assert_eq!(
        server.send_oversized_response(&p, "0123456789", 0).unwrap_err(),
        OversizedTransferError::Policy("Chunk size must be positive".to_string())
    );
}

/// What comes of a transfer whose last frame comes after a sweep at `sweep_at`.
fn payload_after_sweep(sweep_at: u64) -> Option<String> {
    let config = NostrServerTransportConfig::default().with_oversized_transfer(
        OversizedTransferConfig::enabled().with_transfer_timeout_ms(4_000),
    );
    let mut server = server_with(config);
    assert_eq!(server.oversized_sweep_interval_us(), Some(2_000_000));
    let mut inbound = from(1, 1);
    inbound.tags.push(make_tag(&[SUPPORT_OVERSIZED_TRANSFER]));
    receive(&mut server, &inbound, notification("notifications/x", None));
    let frames =
        build_oversized_frames("abc", &OversizedSenderOptions::new("tok").with_chunk_size(3))
            .unwrap();
    receive(&mut server, &inbound, JsonRpcMessage::Notification(frames.start));
    for chunk in frames.chunks {
        receive(&mut server, &inbound, JsonRpcMessage::Notification(chunk));
    }
    server.sweep_oversized_receivers(sweep_at);
    let end = JsonRpcMessage::Notification(frames.end);
    match receive_at(&mut server, sweep_at, &inbound, end) {
        ServerAction::Oversized { accept: None, payload } => payload.map(|p| p.text),
        other => panic!("expected an oversized frame, got {other:?}"),
    }
}

#[test]
fn transfers_of_clients_are_swept() {
    assert_eq!(payload_after_sweep(4_000), Some("abc".to_string()));
    assert_eq!(payload_after_sweep(4_001), None);
    let off = NostrServerTransportConfig::default().with_oversized_enabled(false);
    assert_eq!(server_with(off).oversized_sweep_interval_us(), None);
}

// Open streams.

fn streaming() -> NostrServerTransportConfig {
    NostrServerTransportConfig::default().with_open_stream(OpenStreamConfig::enabled())
}

fn streams(enabled: bool) -> ServerOpenStreamState {
    ServerOpenStreamState::new(&OpenStreamConfig::default().with_enabled(enabled), 1000)
}

fn install_slot(state: &mut ServerOpenStreamState, event: u8, token: &str) {
    state.create_open_stream_writer(&key(event), &key(1), token, num(1), false, None);
}

fn start_writer(state: &mut ServerOpenStreamState, event: u8) {
    assert!(matches!(
        state.writer_step(&key(event), &WriterOp::Start),
        Some(WriterStep::PublishStart(_))
    ));
    state.start_published(&key(event));
}

#[test]
fn try_defer_open_stream_response_branch_coverage() {
    let mut state = streams(true);

    assert!(matches!(
        state.try_defer_open_stream_response(&key(1), response(num(1))),
        OpenStreamDeferral::Passthrough(_)
    ));

    install_slot(&mut state, 2, "tok-unstarted");
    assert!(matches!(
        state.try_defer_open_stream_response(&key(2), response(num(1))),
        OpenStreamDeferral::Passthrough(_)
    ));
    assert!(state.get_open_stream_writer(&key(2)).is_none());
    assert!(state.event_id_for_token("tok-unstarted").is_none());

    install_slot(&mut state, 3, "tok-terminal");
    start_writer(&mut state, 3);
    assert!(state.flush_open_stream_response(&key(3)).is_none());
    assert!(matches!(
        state.try_defer_open_stream_response(&key(3), response(num(1))),
        OpenStreamDeferral::SendNow { .. }
    ));
    assert!(state.get_open_stream_writer(&key(3)).is_none());
    assert!(state.event_id_for_token("tok-terminal").is_none());

    install_slot(&mut state, 4, "tok-open");
    start_writer(&mut state, 4);
    assert!(matches!(
        state.try_defer_open_stream_response(&key(4), response(num(1))),
        OpenStreamDeferral::Deferred
    ));
    assert!(state.get_open_stream_writer(&key(4)).is_some());
    let (snapshot, stashed) = state.flush_open_stream_response(&key(4)).unwrap();
    assert_eq!(stashed, response(num(1)));
    assert_eq!(snapshot.client_pubkey, key(1));

    let mut disabled = streams(false);
    install_slot(&mut disabled, 5, "tok-disabled");
    assert!(disabled.get_open_stream_writer(&key(5)).is_none());
}

#[test]
fn a_streamed_response_waits_for_the_end_of_its_stream() {
    let mut server = server_with(streaming());
    receive(&mut server, &from(1, 1), call("tok"));
    assert_eq!(server.get_open_stream_writer(&key(1)).unwrap().progress_token(), "tok");

    let op = WriterOp::Write("hello".to_string());
    match server.writer_step(&key(1), &op) {
        Some(WriterStep::PublishStart(n)) => {
            let reply = server.writer_frame(&key(1), n).unwrap();
            assert_eq!(reply.recipient, key(1));
            assert_eq!(reply.tags, create_response_tags(&key(1), &key(1)));
        }
        other => panic!("expected the start frame, got {other:?}"),
    }
    server.start_published(&key(1));
    assert!(matches!(server.writer_step(&key(1), &op), Some(WriterStep::Publish(_))));
    assert_eq!(server.writer_completed(&key(1), &op, true), None);

    assert_eq!(server.send_response(&key(1), response(Json::Null)), ResponsePlan::Deferred);
    assert!(matches!(
        server.writer_step(&key(1), &WriterOp::Close),
        Some(WriterStep::Publish(_))
    ));
    assert_eq!(
        server.writer_completed(&key(1), &WriterOp::Close, false),
        Some(StreamEnd::Closed)
    );
    assert_eq!(server.writer_completed(&key(2), &WriterOp::Close, true), None);
    let reply = server.flush_open_stream_response(&key(1)).unwrap().unwrap();
    assert_eq!(reply.message, response(num(5)));
    assert_eq!(reply.tags, create_response_tags(&key(1), &key(1)));
    assert!(server.flush_open_stream_response(&key(1)).is_none());
    assert!(server.get_open_stream_writer(&key(1)).is_none());
}

#[test]
fn an_unused_writer_does_not_hold_back_the_response() {
    let mut server = server_with(streaming());
    receive(&mut server, &from(1, 1), call("tok"));
    let p = sent(server.send_response(&key(1), response(Json::Null)));
    assert_eq!(p.response.id(), Some(&num(5)));
    assert!(server.get_open_stream_writer(&key(1)).is_none());
}

fn stream_frame(token: &str, progress: u64, frame: OpenStreamFrame) -> JsonRpcMessage {
    JsonRpcMessage::Notification(frame.into_progress_notification(token, progress, None))
}

fn stream_replies(action: ServerAction) -> Vec<OpenStreamFrame> {
    match action {
        ServerAction::Stream { op: None, replies } => replies
            .iter()
            .map(|r| match &r.message {
                JsonRpcMessage::Notification(n) => OpenStreamFrame::from_cvm_value(at(
                    n.params.as_ref().unwrap(),
                    "cvm",
                ))
                .unwrap(),
                other => panic!("expected a notification, got {other:?}"),
            })
            .collect(),
        _ => panic!("expected a stream frame"),
    }
}

#[test]
fn a_stream_that_a_client_opens_is_accepted_and_kept_alive() {
    let config = NostrServerTransportConfig::default().with_open_stream(
        OpenStreamConfig::enabled().with_idle_timeout_ms(10).with_probe_timeout_ms(10),
    );
    let mut server = server_with(config);
    assert_eq!(server.open_stream_sweep_interval_us(), Some(1_000_000));
    let mut inbound = from(1, 1);
    inbound.tags.push(make_tag(&[SUPPORT_OPEN_STREAM]));
    let start = OpenStreamFrame::Start { content_type: None };
    assert_eq!(
        stream_replies(receive(&mut server, &inbound, stream_frame("s", 1, start))),
        vec![OpenStreamFrame::Accept]
    );
    let ping = OpenStreamFrame::Ping { nonce: "n".to_string() };
    assert_eq!(
        stream_replies(receive(&mut server, &inbound, stream_frame("s", 2, ping))),
        vec![OpenStreamFrame::Pong { nonce: "n".to_string() }]
    );
    let probes = server.sweep_open_stream_sessions(10);
    assert_eq!(probes.len(), 1);
    match &probes[0] {
        SweepAction::Send(reply) => {
            assert_eq!(reply.recipient, key(1));
            assert!(reply.is_encrypted);
            assert_eq!(tag_names(&reply.tags), vec!["p"]);
        }
        other => panic!("expected a probe, got {other:?}"),
    }
    assert!(server.sweep_open_stream_sessions(20).is_empty());
    assert_eq!(server_with(NostrServerTransportConfig::default()).open_stream_sweep_interval_us(), None);
}

#[test]
fn a_probe_of_a_writer_is_answered_by_the_writer() {
    let mut server = server_with(streaming());
    receive(&mut server, &from(1, 1), call("tok"));
    let ping = OpenStreamFrame::Ping { nonce: "n".to_string() };
    match receive(&mut server, &from(1, 2), stream_frame("tok", 1, ping)) {
        ServerAction::Stream { op: Some((event, op)), replies } => {
            assert_eq!(event, key(1));
            assert_eq!(op, WriterOp::Pong("n".to_string()));
            assert!(replies.is_empty());
        }
        _ => panic!("expected an operation of the writer"),
    }
    let abort = OpenStreamFrame::Abort { reason: Some("stop".to_string()) };
    match receive(&mut server, &from(1, 3), stream_frame("tok", 2, abort)) {
        ServerAction::Stream { op: Some((_, op)), .. } => {
            assert_eq!(op, WriterOp::Abort(Some("stop".to_string())))
        }
        _ => panic!("expected an operation of the writer"),
    }
}

#[test]
fn closing_forgets_everything() {
    let mut server = server_with(streaming());
    receive(&mut server, &from(1, 1), call("tok"));
    server.close();
    assert!(server.session_snapshot(&key(1)).is_none());
    assert!(server.get_open_stream_writer(&key(1)).is_none());
    assert!(matches!(
        server.send_response(&key(1), response(Json::Null)),
        ResponsePlan::Fail(_)
    ));
    let r = server.handle_announcement_response(&announcement_response(INITIALIZE_RESULT));
    assert!(r.publish.is_some());
    assert!(r.dispatch.is_none());
}

#[test]
fn what_a_client_supports_is_never_forgotten() {
    let mut server = server_with(NostrServerTransportConfig::default());
    let mut inbound = from(1, 1);
    inbound.tags.push(make_tag(&[SUPPORT_ENCRYPTION]));
    inbound.wrap_kind = Some(EPHEMERAL_GIFT_WRAP_KIND);
    receive(&mut server, &inbound, notification("notifications/x", None));
    receive(&mut server, &from(1, 2), notification("notifications/x", None));
    let s = server.session_snapshot(&key(1)).unwrap();
    assert!(s.supports_encryption);
    assert!(s.supports_ephemeral_gift_wrap);
    assert!(!s.is_encrypted);
}

#[test]
fn publication_goes_to_advertised_and_bootstrap_relays() {
    let urls = |list: &[&str]| list.iter().map(|u| u.to_string()).collect::<Vec<String>>();
    let bootstrap = urls(&["wss://boot", "wss://a"]);
    let config = || NostrServerTransportConfig::default().with_relay_urls(urls(&["wss://a"]));
    assert_eq!(publication_targets(&config(), &bootstrap), urls(&["wss://a", "wss://boot"]));
    assert_eq!(
        publication_targets(&config().with_relay_list_urls(urls(&["wss://b"])), &bootstrap),
        urls(&["wss://b", "wss://boot", "wss://a"])
    );
    assert_eq!(
        publication_targets(&config().with_bootstrap_relay_urls(urls(&["wss://c"])), &bootstrap),
        urls(&["wss://a", "wss://c"])
    );
    assert_eq!(
        publication_targets(&config().with_bootstrap_relay_urls(Vec::new()), &bootstrap),
        urls(&["wss://a"])
    );
}
