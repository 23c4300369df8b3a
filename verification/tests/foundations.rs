use contextvm_sdk::constants::DEFAULT_LRU_SIZE;
use contextvm_sdk::json::{object, text_value, unsigned_value, Fraction, Json, Number};
use contextvm_sdk::message::{
    JsonRpcError, JsonRpcErrorResponse, JsonRpcMessage, JsonRpcNotification, JsonRpcRequest,
};
use contextvm_sdk::recency_map::RecencyMap;
use contextvm_sdk::seen_ids::SeenIds;
use contextvm_sdk::tag::Tag;
use contextvm_sdk::text::{decimal_text, join2, join3, signed_decimal_text};
use contextvm_sdk::text_map::TextMap;
use contextvm_sdk::text_set::TextSet;
use contextvm_sdk::transport::oversized_transfer::frame::progress_token_string;
use contextvm_sdk::transport::server::config::NostrServerTransportConfig;
use contextvm_sdk::transport::server::reply::{parse_event_id_or_zeros, ZERO_EVENT_ID};
use contextvm_sdk::transport::server::transport::{NostrServerTransport, ServerInbound};
use contextvm_sdk::transport::client::transport::Screening;
use contextvm_sdk::transport::{NostrClientTransport, NostrClientTransportConfig};
use contextvm_sdk::types::GiftWrapMode;
use nostr_sdk::{EventBuilder, JsonUtil, Keys, Kind};

#[test]
fn numbers_are_written_in_decimal() {
    assert_eq!(decimal_text(0), "0");
    assert_eq!(decimal_text(10_203), "10203");
    assert_eq!(decimal_text(u64::MAX), "18446744073709551615");
    assert_eq!(signed_decimal_text(-7), "-7");
    assert_eq!(signed_decimal_text(7), "7");
    assert_eq!(signed_decimal_text(i64::MIN), "-9223372036854775808");
}

#[test]
fn texts_are_joined() {
    assert_eq!(join2("a", "é"), "aé");
    assert_eq!(join3("a", "", "c"), "ac");
}

#[test]
fn a_map_keeps_one_value_for_each_text() {
    let mut map: TextMap<u64> = TextMap::new();
    assert_eq!(map.insert("a".to_string(), 1), None);
    assert_eq!(map.insert("b".to_string(), 2), None);
    assert_eq!(map.insert("a".to_string(), 3), Some(1));
    assert_eq!(map.len(), 2);
    assert_eq!(map.get("a"), Some(&3));
    assert!(map.contains_key("b"));
    assert!(!map.contains_key("A"));
    assert_eq!(map.remove("c"), None);
    assert_eq!(map.remove("a"), Some(3));
    assert_eq!(map.keys(), vec!["b"]);
    map.clear();
    assert_eq!(map.len(), 0);
}

#[test]
fn a_set_keeps_each_text_once() {
    let mut set = TextSet::new();
    set.insert("a".to_string());
    set.insert("b".to_string());
    set.insert("a".to_string());
    assert_eq!(set.len(), 2);
    assert!(set.contains("a"));
    set.remove("a");
    assert!(!set.contains("a"));
    assert_eq!(set.items(), vec!["b"]);
}

#[test]
fn the_least_recently_used_entry_leaves_first() {
    let mut map: RecencyMap<u64> = RecencyMap::with_capacity(2);
    assert_eq!(map.limit(), 2);
    assert_eq!(map.push("a".to_string(), 1), None);
    assert_eq!(map.push("b".to_string(), 2), None);
    assert_eq!(map.keys(), vec!["b", "a"]);
    assert_eq!(map.peek("a"), Some(&1));
    assert_eq!(map.keys(), vec!["b", "a"]);
    assert!(map.promote("a"));
    assert!(!map.promote("z"));
    assert_eq!(map.keys(), vec!["a", "b"]);
    assert_eq!(map.push("c".to_string(), 3), Some(("b".to_string(), 2)));
    assert_eq!(map.push("a".to_string(), 4), Some(("a".to_string(), 1)));
    assert_eq!(map.keys(), vec!["a", "c"]);
    assert_eq!(map.replace("c", 5), Some(3));
    assert_eq!(map.replace("z", 5), None);
    assert_eq!(map.keys(), vec!["a", "c"]);
    assert_eq!(map.pop("c"), Some(5));
    assert_eq!(map.pop("c"), None);
    assert!(!map.contains("c"));
    assert_eq!(map.len(), 1);
    map.clear();
    assert_eq!(map.len(), 0);
    assert_eq!(map.peek("a"), None);
}

#[test]
fn a_map_for_nothing_holds_one_entry() {
    let mut map: RecencyMap<u64> = RecencyMap::with_capacity(0);
    assert_eq!(map.push("a".to_string(), 1), None);
    assert_eq!(map.push("b".to_string(), 2), Some(("a".to_string(), 1)));
    assert_eq!(map.limit(), 1);
}

#[test]
fn only_so_many_ids_are_remembered() {
    let mut seen = SeenIds::new();
    for i in 0..=DEFAULT_LRU_SIZE {
        seen.insert(format!("e{i}"));
    }
    assert!(!seen.contains("e0"));
    assert!(seen.contains("e1"));
    assert!(seen.contains(&format!("e{DEFAULT_LRU_SIZE}")));
}

#[test]
fn members_of_values_are_found() {
    let value = object(vec![
        ("a".to_string(), unsigned_value(1)),
        ("b".to_string(), text_value("x")),
    ]);
    assert_eq!(value.get("a").unwrap().as_u64(), Some(1));
    assert_eq!(value.get("a").unwrap().as_str(), None);
    assert_eq!(value.get("b").unwrap().as_str(), Some("x"));
    assert_eq!(value.get("c"), None);
    assert_eq!(text_value("a").get("a"), None);
    assert_eq!(value.duplicate(), value);
    assert_eq!(Json::Number(Number::Signed(-1)).as_u64(), None);
}

#[test]
fn a_fraction_is_rendered_as_it_was_written() {
    let half = || {
        Json::Number(Number::Fraction(Fraction {
            text: "0.5".to_string(),
            whole: false,
            positive: true,
            clamped_u64: 0,
            clamped_i64: 0,
        }))
    };
    assert_eq!(progress_token_string(&half()), Some("0.5".to_string()));
    assert_eq!(half().as_u64(), None);
    assert_eq!(half().duplicate(), half());
}

#[test]
fn only_responses_take_another_id() {
    let error = JsonRpcMessage::ErrorResponse(JsonRpcErrorResponse {
        jsonrpc: "2.0".to_string(),
        id: unsigned_value(1),
        error: JsonRpcError { code: -1, message: "m".to_string(), data: None },
    });
    assert!(error.is_response());
    let answered = error.answered_as(&text_value("x"));
    assert_eq!(answered.id(), Some(&text_value("x")));
    assert_eq!(answered.method(), None);

    let request = JsonRpcMessage::Request(JsonRpcRequest {
        jsonrpc: "2.0".to_string(),
        id: unsigned_value(1),
        method: "m".to_string(),
        params: None,
    });
    assert!(request.is_request());
    let same = request.duplicate().answered_as(&text_value("x"));
    assert_eq!(same, request);
}

#[test]
fn event_ids_are_read_in_either_case() {
    let id = "ABCDEFabcdef0123456789ABCDEFabcdef0123456789abcdef0123456789abcd";
    assert_eq!(parse_event_id_or_zeros(id), id.to_lowercase());
    assert_eq!(parse_event_id_or_zeros(&id[1..]), ZERO_EVENT_ID);
    assert_eq!(parse_event_id_or_zeros(&format!("{id}0")), ZERO_EVENT_ID);
    assert_eq!(parse_event_id_or_zeros(&id.replace('A', "g")), ZERO_EVENT_ID);
    assert_eq!(parse_event_id_or_zeros(""), ZERO_EVENT_ID);
    assert_eq!(ZERO_EVENT_ID, "0".repeat(64));
}

#[test]
fn public_keys_are_read_in_either_case() {
    let key = "ABCDEFabcdef0123456789ABCDEFabcdef0123456789abcdef0123456789abcd";
    let mut server = NostrServerTransport::new(NostrServerTransportConfig::default());
    let hello = || {
        JsonRpcMessage::Notification(JsonRpcNotification {
            jsonrpc: "2.0".to_string(),
            method: "notifications/x".to_string(),
            params: None,
        })
    };
    for sender in [key, "key"] {
        let inbound = ServerInbound {
            sender_pubkey: sender.to_string(),
            event_id: "e".to_string(),
            wrap_kind: None,
            tags: vec![],
        };
        server.receive(0, &inbound, hello());
    }
    let reply = server.send_notification(key, &hello(), None).unwrap();
    assert_eq!(reply.recipient, key.to_lowercase());
    assert_eq!(
        reply.tags[0],
        Tag { parts: vec!["p".to_string(), key.to_lowercase()] }
    );
    assert!(server.send_notification("key", &hello(), None).is_err());
}

#[test]
fn modes_say_which_gift_wraps_they_use() {
    assert!(GiftWrapMode::Optional.allows_kind(1059));
    assert!(GiftWrapMode::Optional.allows_kind(21059));
    assert!(!GiftWrapMode::Persistent.allows_kind(21059));
    assert!(!GiftWrapMode::Ephemeral.allows_kind(1059));
    assert!(GiftWrapMode::Ephemeral.supports_ephemeral());
    assert!(!GiftWrapMode::Persistent.supports_ephemeral());
    assert_eq!(GiftWrapMode::Ephemeral.fallback_kind(), 21059);
    assert_eq!(GiftWrapMode::Optional.fallback_kind(), 1059);
}

#[test]
fn only_events_that_verify_come_out_of_gift_wraps() {
    let keys = Keys::generate();
    let event = EventBuilder::new(Kind::Custom(25910), "hello")
        .tag(nostr_sdk::Tag::parse(["e", "x"]).unwrap())
        .sign_with_keys(&keys)
        .unwrap();
    let text = event.as_json();
    let forged = text.replace("hello", "olleh");

    let mut server = NostrServerTransport::new(NostrServerTransportConfig::default());
    assert_eq!(server.open_gift_wrap(1059, "w".to_string(), &forged), None);
    assert_eq!(server.open_gift_wrap(1059, "w".to_string(), "{}"), None);
    assert_eq!(server.screen_event(1059, "w"), Screening::Unwrap);
    let opened = server.open_gift_wrap(1059, "w".to_string(), &text).unwrap();
    assert_eq!(opened.content, "hello");
    assert_eq!(opened.inbound.sender_pubkey, keys.public_key().to_hex());
    assert_eq!(opened.inbound.event_id, event.id.to_hex());
    assert_eq!(opened.inbound.wrap_kind, Some(1059));
    assert_eq!(
        opened.inbound.tags,
        vec![Tag { parts: vec!["e".to_string(), "x".to_string()] }]
    );
    assert_eq!(server.screen_event(1059, "w"), Screening::Drop);

    let mut client = NostrClientTransport::new(
        NostrClientTransportConfig::default().with_server_pubkey(keys.public_key().to_hex()),
    )
    .unwrap();
    assert_eq!(client.open_gift_wrap(21059, "w".to_string(), &forged), None);
    assert_eq!(client.screen_event(21059, "w"), Screening::Unwrap);
    let opened = client.open_gift_wrap(21059, "w".to_string(), &text).unwrap();
    assert_eq!(opened.content, "hello");
    assert_eq!(opened.pubkey, keys.public_key().to_hex());
    assert_eq!(opened.event_id, event.id.to_hex());
    assert_eq!(opened.wrap_kind, Some(21059));
    assert_eq!(client.screen_event(21059, "w"), Screening::Drop);
}
