use contextvm_sdk::json::{Fraction, Json, Number};
use contextvm_sdk::message::JsonRpcNotification;
use contextvm_sdk::transport::open_stream::constants::{
    DEFAULT_MAX_BUFFERED_BYTES_PER_STREAM, DEFAULT_MAX_BUFFERED_CHUNKS_PER_STREAM,
};
use contextvm_sdk::transport::open_stream::errors::OpenStreamError;
use contextvm_sdk::transport::open_stream::frame::{
    open_stream_frame_from_notification, OpenStreamFrame,
};
use contextvm_sdk::transport::open_stream::receiver::OpenStreamReceiver;
use contextvm_sdk::transport::open_stream::registry::{
    OpenStreamRegistry, OpenStreamRegistryPolicy, StreamEnd,
};
use contextvm_sdk::transport::open_stream::session::{
    FrameOutcome, KeepaliveAction, OpenStreamSession, OpenStreamSessionOptions, StreamItem,
    StreamLimits,
};
use contextvm_sdk::transport::open_stream::writer::{
    OpenStreamWriter, OpenStreamWriterOptions, WriterOp, WriterStep,
};
use contextvm_sdk::transport::open_stream::OpenStreamConfig;
use serde_json::Value;

fn convert(value: &Value) -> Json {
    match value {
        Value::Null => Json::Null,
        Value::Bool(b) => Json::Bool(*b),
        Value::Number(n) => Json::Number(if let Some(u) = n.as_u64() {
            Number::Unsigned(u)
        } else if let Some(i) = n.as_i64() {
            Number::Signed(i)
        } else {
            let f = n.as_f64().unwrap();
            Number::Fraction(Fraction {
                text: n.to_string(),
                whole: f.fract() == 0.0,
                positive: f > 0.0,
                clamped_u64: f as u64,
                clamped_i64: f as i64,
            })
        }),
        Value::String(s) => Json::Text(s.clone()),
        Value::Array(items) => Json::Array(items.iter().map(convert).collect()),
        Value::Object(map) => {
            Json::Object(map.iter().map(|(k, v)| (k.clone(), convert(v))).collect())
        }
    }
}

fn json(text: &str) -> Json {
    convert(&serde_json::from_str(text).unwrap())
}

fn text(s: &str) -> Json {
    Json::Text(s.to_string())
}

fn num(n: u64) -> Json {
    Json::Number(Number::Unsigned(n))
}

fn at<'a>(value: &'a Json, key: &str) -> &'a Json {
    value.get(key).unwrap()
}

fn params(n: &JsonRpcNotification) -> &Json {
    n.params.as_ref().unwrap()
}

fn cvm(n: &JsonRpcNotification) -> &Json {
    at(params(n), "cvm")
}

fn progress(text: &str) -> JsonRpcNotification {
    JsonRpcNotification {
        jsonrpc: "2.0".to_string(),
        method: "notifications/progress".to_string(),
        params: Some(json(text)),
    }
}

fn start() -> OpenStreamFrame {
    OpenStreamFrame::Start { content_type: None }
}

fn chunk(index: u64, data: &str) -> OpenStreamFrame {
    OpenStreamFrame::Chunk { chunk_index: index, data: data.to_string() }
}

fn close(last: Option<u64>) -> OpenStreamFrame {
    OpenStreamFrame::Close { last_chunk_index: last }
}

fn abort(reason: &str) -> OpenStreamFrame {
    OpenStreamFrame::Abort { reason: Some(reason.to_string()) }
}

// Configuration.

#[test]
fn default_is_disabled_with_ts_parity_knobs() {
    let config = OpenStreamConfig::default();
    assert!(!config.enabled);
    assert!(OpenStreamConfig::default().with_enabled(true).enabled);
    assert!(OpenStreamConfig::enabled().enabled);
    assert_eq!(config.max_concurrent_streams, 64);
    assert_eq!(config.max_buffered_chunks_per_stream, 64);
    assert_eq!(config.max_buffered_bytes_per_stream, 512 * 1024);
    assert_eq!(config.idle_timeout_ms, 30_000);
    assert_eq!(config.probe_timeout_ms, 20_000);
    assert_eq!(config.close_grace_period_ms, 5_000);
    assert_eq!(config.max_total_timeout_ms, None);
}

#[test]
fn builders_opt_in_and_override() {
    let config = OpenStreamConfig::default()
        .with_enabled(true)
        .with_max_concurrent_streams(8)
        .with_max_buffered_bytes_per_stream(1024)
        .with_max_total_timeout_ms(Some(60_000));
    assert!(config.enabled);
    assert_eq!(config.max_concurrent_streams, 8);
    assert_eq!(config.max_buffered_bytes_per_stream, 1024);
    assert_eq!(config.max_total_timeout_ms, Some(60_000));

    assert!(OpenStreamConfig::enabled().enabled);
}

#[test]
fn projects_into_registry_policy() {
    let config = OpenStreamConfig::default()
        .with_max_concurrent_streams(3)
        .with_max_buffered_chunks_per_stream(5)
        .with_max_buffered_bytes_per_stream(7)
        .with_idle_timeout_ms(11)
        .with_probe_timeout_ms(13)
        .with_close_grace_period_ms(17);
    let policy: OpenStreamRegistryPolicy = (&config).into();
    assert_eq!(policy.max_concurrent_streams, 3);
    assert_eq!(policy.max_buffered_chunks_per_stream, 5);
    assert_eq!(policy.max_buffered_bytes_per_stream, 7);
    assert_eq!(policy.idle_timeout_ms, 11);
    assert_eq!(policy.probe_timeout_ms, 13);
    assert_eq!(policy.close_grace_period_ms, 17);
}

// Frames.

fn assert_cvm_roundtrip(frame: OpenStreamFrame) {
    let value = frame.to_cvm_value();
    assert_eq!(at(&value, "type"), &text("open-stream"));
    assert_eq!(at(&value, "frameType"), &text(frame.frame_type()));
    assert_eq!(OpenStreamFrame::from_cvm_value(&value), Some(frame));
}

#[test]
fn all_frame_variants_roundtrip() {
    assert_cvm_roundtrip(OpenStreamFrame::Start { content_type: Some("text/plain".to_string()) });
    assert_cvm_roundtrip(OpenStreamFrame::Start { content_type: None });
    assert_cvm_roundtrip(OpenStreamFrame::Accept);
    assert_cvm_roundtrip(chunk(7, "payload"));
    assert_cvm_roundtrip(OpenStreamFrame::Ping { nonce: "tok:1".to_string() });
    assert_cvm_roundtrip(OpenStreamFrame::Pong { nonce: "tok:1".to_string() });
    assert_cvm_roundtrip(close(Some(4)));
    assert_cvm_roundtrip(close(None));
    assert_cvm_roundtrip(abort("boom"));
    assert_cvm_roundtrip(OpenStreamFrame::Abort { reason: None });
}

#[test]
fn chunk_frame_serializes_with_camel_case_fields() {
    let value = chunk(3, "abc").to_cvm_value();
    assert_eq!(at(&value, "type"), &text("open-stream"));
    assert_eq!(at(&value, "frameType"), &text("chunk"));
    assert_eq!(at(&value, "chunkIndex"), &num(3));
    assert_eq!(at(&value, "data"), &text("abc"));
    assert!(value.get("chunk_index").is_none());
}

#[test]
fn start_content_type_serializes_camel_case_and_omits_when_none() {
    let with = OpenStreamFrame::Start { content_type: Some("application/json".to_string()) }
        .to_cvm_value();
    assert_eq!(at(&with, "contentType"), &text("application/json"));

    let without = OpenStreamFrame::Start { content_type: None }.to_cvm_value();
    assert!(without.get("contentType").is_none());
}

#[test]
fn close_last_chunk_index_serializes_camel_case_and_omits_when_none() {
    let with = close(Some(9)).to_cvm_value();
    assert_eq!(at(&with, "lastChunkIndex"), &num(9));

    let without = close(None).to_cvm_value();
    assert!(without.get("lastChunkIndex").is_none());
}

#[test]
fn abort_reason_omitted_when_none() {
    let value = OpenStreamFrame::Abort { reason: None }.to_cvm_value();
    assert!(value.get("reason").is_none());
}

#[test]
fn from_cvm_value_rejects_wrong_type() {
    let value = json(r#"{ "type": "oversized-transfer", "frameType": "start" }"#);
    assert_eq!(OpenStreamFrame::from_cvm_value(&value), None);
    assert!(!OpenStreamFrame::is_frame_value(&value));
}

#[test]
fn from_cvm_value_rejects_unknown_frame_type() {
    let value = json(r#"{ "type": "open-stream", "frameType": "bogus" }"#);
    assert_eq!(OpenStreamFrame::from_cvm_value(&value), None);
}

#[test]
fn is_frame_value_requires_type_and_frame_type() {
    assert!(OpenStreamFrame::is_frame_value(&json(
        r#"{ "type": "open-stream", "frameType": "chunk", "chunkIndex": 0, "data": "x" }"#
    )));
    assert!(!OpenStreamFrame::is_frame_value(&json(r#"{ "type": "open-stream" }"#)));
    assert!(!OpenStreamFrame::is_frame_value(&json(r#"{ "frameType": "chunk" }"#)));
    assert!(!OpenStreamFrame::is_frame_value(&json(r#""not an object""#)));
}

#[test]
fn into_progress_notification_builds_progress_envelope() {
    let notification = chunk(2, "frag").into_progress_notification("tok-1", 7, Some("hi"));

    assert_eq!(notification.method, "notifications/progress");
    let p = params(&notification);
    assert_eq!(at(p, "progressToken"), &text("tok-1"));
    assert_eq!(at(p, "progress"), &num(7));
    assert_eq!(at(p, "message"), &text("hi"));
    assert_eq!(at(at(p, "cvm"), "frameType"), &text("chunk"));
    assert_eq!(at(at(p, "cvm"), "chunkIndex"), &num(2));
    assert_eq!(at(at(p, "cvm"), "data"), &text("frag"));
    assert_eq!(at(at(p, "cvm"), "type"), &text("open-stream"));
}

#[test]
fn into_progress_notification_omits_absent_message() {
    let notification = OpenStreamFrame::Accept.into_progress_notification("tok-1", 9, None);
    assert!(params(&notification).get("message").is_none());
}

#[test]
fn open_stream_frame_from_notification_extracts_typed_frame() {
    let notification = OpenStreamFrame::Ping { nonce: "n".to_string() }
        .into_progress_notification("tok", 1, None);
    assert_eq!(
        open_stream_frame_from_notification(&notification),
        Some(OpenStreamFrame::Ping { nonce: "n".to_string() })
    );

    let plain = progress(r#"{ "progressToken": "t", "progress": 3 }"#);
    assert_eq!(open_stream_frame_from_notification(&plain), None);
}

// The receiver.

fn oversized_end() -> JsonRpcNotification {
    progress(
        r#"{ "progressToken": "tok", "progress": 1,
             "cvm": { "type": "oversized-transfer", "frameType": "end" } }"#,
    )
}

#[test]
fn is_open_stream_frame_detects_cvm_payload() {
    let frame = start().into_progress_notification("tok", 1, None);
    assert!(OpenStreamReceiver::is_open_stream_frame(&frame));

    let plain = progress(r#"{ "progressToken": "tok", "progress": 1 }"#);
    assert!(!OpenStreamReceiver::is_open_stream_frame(&plain));

    assert!(!OpenStreamReceiver::is_open_stream_frame(&oversized_end()));
}

#[test]
fn process_frame_delegates_to_registry_and_tracks_session() {
    let mut receiver = OpenStreamReceiver::new();
    receiver
        .process_frame(0, &start().into_progress_notification("tok", 1, None))
        .result
        .unwrap();
    assert_eq!(receiver.active_stream_count(), 1);
    assert!(receiver.get_session("tok").is_some());

    let end = close(None).into_progress_notification("tok", 2, None);
    receiver.process_frame(0, &end).result.unwrap();
    assert_eq!(receiver.active_stream_count(), 0);
}

#[test]
fn non_open_stream_progress_notification_is_not_intercepted() {
    let mut receiver = OpenStreamReceiver::new();
    let oversized = oversized_end();
    let plain = progress(r#"{ "progressToken": "tok", "progress": 1 }"#);

    for notification in [&oversized, &plain] {
        assert!(!OpenStreamReceiver::is_open_stream_frame(notification));
        if OpenStreamReceiver::is_open_stream_frame(notification) {
            receiver.process_frame(0, notification).result.unwrap();
        }
    }

    assert_eq!(receiver.active_stream_count(), 0);
    assert!(receiver.get_session("tok").is_none());
}

// Sessions.

fn session_with(token: &str, limits: StreamLimits, can_publish: bool) -> OpenStreamSession {
    OpenStreamSession::new(
        OpenStreamSessionOptions { progress_token: token.to_string(), limits, can_publish },
        0,
    )
}

fn make_session(token: &str, max_chunks: usize, max_bytes: u64) -> OpenStreamSession {
    session_with(
        token,
        StreamLimits {
            max_buffered_chunks: max_chunks,
            max_buffered_bytes: max_bytes,
            idle_timeout_ms: 30_000,
            probe_timeout_ms: 20_000,
            close_grace_period_ms: 5_000,
        },
        false,
    )
}

fn make_session_timers(token: &str, idle: u64, probe: u64, grace: u64) -> OpenStreamSession {
    session_with(
        token,
        StreamLimits {
            max_buffered_chunks: 8,
            max_buffered_bytes: 1024,
            idle_timeout_ms: idle,
            probe_timeout_ms: probe,
            close_grace_period_ms: grace,
        },
        false,
    )
}

fn is_sequence(e: &OpenStreamError) -> bool {
    matches!(e, OpenStreamError::Sequence(_))
}

fn drain_ok(session: &mut OpenStreamSession) -> Vec<String> {
    let mut out = Vec::new();
    loop {
        match session.poll_next() {
            StreamItem::Chunk(c) => out.push(c),
            StreamItem::Ended => return out,
            other => panic!("graceful stream must end, got {other:?}"),
        }
    }
}

fn expect_abort(session: &mut OpenStreamSession, reason: &str) {
    match session.poll_next() {
        StreamItem::Failed(OpenStreamError::Abort { reason: got, .. }) => {
            assert_eq!(got.as_deref(), Some(reason));
        }
        other => panic!("expected abort error, got {other:?}"),
    }
}

#[test]
fn yields_ordered_chunks_and_finishes_after_close() {
    let mut s = make_session("token-1", 8, 1024);
    s.process_frame(0, 1, start()).unwrap();
    s.process_frame(0, 2, chunk(0, "hello")).unwrap();
    s.process_frame(0, 3, chunk(1, " world")).unwrap();
    assert_eq!(s.process_frame(0, 4, close(None)).unwrap(), FrameOutcome::Closed);

    assert_eq!(drain_ok(&mut s), vec!["hello", " world"]);
    assert!(!s.is_active());
}

#[test]
fn buffers_out_of_order_chunks_until_contiguous() {
    let mut s = make_session("token-2", 8, 1024);
    s.process_frame(0, 1, start()).unwrap();
    s.process_frame(0, 2, chunk(1, "world")).unwrap();
    s.process_frame(0, 3, chunk(0, "hello ")).unwrap();
    s.process_frame(0, 4, close(None)).unwrap();

    assert_eq!(drain_ok(&mut s), vec!["hello ", "world"]);
}

#[test]
fn fails_when_progress_does_not_increase() {
    let mut s = make_session("token-3", 8, 1024);
    s.process_frame(0, 1, start()).unwrap();
    let err = s.process_frame(0, 1, chunk(0, "repeat")).unwrap_err();
    assert!(is_sequence(&err));
}

#[test]
fn rejects_a_duplicate_start_frame() {
    let mut s = make_session("token-dup-start", 8, 1024);
    s.process_frame(0, 1, start()).unwrap();
    let err = s.process_frame(0, 2, start()).unwrap_err();
    assert!(is_sequence(&err));
}

#[test]
fn abort_frame_terminates_stream_with_error_on_next_poll() {
    let mut s = make_session("token-4", 8, 1024);
    s.process_frame(0, 1, start()).unwrap();
    assert_eq!(
        s.process_frame(0, 2, abort("boom")).unwrap(),
        FrameOutcome::Aborted(Some("boom".to_string()))
    );

    expect_abort(&mut s, "boom");
    assert_eq!(s.poll_next(), StreamItem::Ended);
    assert!(!s.is_active());
}

#[test]
fn fails_when_buffered_chunk_count_exceeds_limit() {
    let mut s = make_session("token-buffer-count", 1, 1024);
    s.process_frame(0, 1, start()).unwrap();
    s.process_frame(0, 2, chunk(1, "late")).unwrap();
    let err = s.process_frame(0, 3, chunk(2, "later")).unwrap_err();
    assert!(is_sequence(&err));
}

#[test]
fn fails_when_buffered_byte_count_exceeds_limit_utf8() {
    let mut s = make_session("token-buffer-bytes", 4, 4);
    s.process_frame(0, 1, start()).unwrap();
    let err = s.process_frame(0, 2, chunk(1, "héllo")).unwrap_err();
    assert!(is_sequence(&err));
}

#[test]
fn fail_terminates_stream_and_closed_resolves() {
    let mut s = make_session("token-explicit-fail", 4, 16);
    s.process_frame(0, 1, start()).unwrap();
    s.fail(OpenStreamError::Sequence("synthetic failure".to_string()));

    match s.poll_next() {
        StreamItem::Failed(OpenStreamError::Sequence(msg)) => assert!(msg.contains("synthetic")),
        other => panic!("expected sequence error, got {other:?}"),
    }
    assert!(!s.is_active());
}

#[test]
fn counts_unread_queued_chunks_against_the_byte_limit() {
    let mut s = make_session("token-queued-bytes", 4, 5);
    s.process_frame(0, 1, start()).unwrap();
    s.process_frame(0, 2, chunk(0, "abc")).unwrap();
    let err = s.process_frame(0, 3, chunk(1, "def")).unwrap_err();
    assert!(is_sequence(&err));
}

#[test]
fn releases_queued_byte_budget_after_consume() {
    let mut s = make_session("token-queued-release", 4, 6);
    s.process_frame(0, 1, start()).unwrap();
    s.process_frame(0, 2, chunk(0, "abc")).unwrap();
    s.process_frame(0, 3, chunk(1, "def")).unwrap();
    assert!(is_sequence(&s.process_frame(0, 4, chunk(2, "g")).unwrap_err()));

    assert_eq!(s.poll_next(), StreamItem::Chunk("abc".to_string()));
    s.process_frame(0, 5, chunk(2, "g")).unwrap();
}

#[test]
fn rejects_frames_after_close() {
    let mut s = make_session("token-post-close", 8, 1024);
    s.process_frame(0, 1, start()).unwrap();
    assert_eq!(s.process_frame(0, 2, close(None)).unwrap(), FrameOutcome::Closed);
    let err = s.process_frame(0, 3, chunk(0, "late")).unwrap_err();
    assert!(is_sequence(&err));
}

#[test]
fn rejects_frames_after_abort() {
    let mut s = make_session("token-post-abort", 8, 1024);
    s.process_frame(0, 1, start()).unwrap();
    s.process_frame(0, 2, abort("boom")).unwrap();
    assert!(is_sequence(&s.process_frame(0, 3, chunk(0, "late")).unwrap_err()));
    assert!(is_sequence(&s.process_frame(0, 4, close(None)).unwrap_err()));
}

#[test]
fn rejects_stale_and_duplicate_chunk_indexes() {
    let mut s = make_session("token-stale", 8, 1024);
    s.process_frame(0, 1, start()).unwrap();
    s.process_frame(0, 2, chunk(0, "hello")).unwrap();
    assert!(is_sequence(&s.process_frame(0, 3, chunk(0, "late-duplicate")).unwrap_err()));

    let mut s2 = make_session("token-dup", 8, 1024);
    s2.process_frame(0, 1, start()).unwrap();
    s2.process_frame(0, 2, chunk(2, "a")).unwrap();
    assert!(is_sequence(&s2.process_frame(0, 3, chunk(2, "b")).unwrap_err()));
}

#[test]
fn requires_all_chunks_through_close_last_chunk_index() {
    let mut s = make_session("token-last-chunk-index", 8, 1024);
    s.process_frame(0, 1, start()).unwrap();
    s.process_frame(0, 2, chunk(0, "hello")).unwrap();
    let err = s.process_frame(0, 3, close(Some(1))).unwrap_err();
    assert!(is_sequence(&err));
}

#[test]
fn allows_graceful_close_when_last_chunk_index_matches() {
    let mut s = make_session("token-last-chunk-complete", 8, 1024);
    s.process_frame(0, 1, start()).unwrap();
    s.process_frame(0, 2, chunk(0, "hello")).unwrap();
    assert_eq!(s.process_frame(0, 3, close(Some(0))).unwrap(), FrameOutcome::Closed);
    assert_eq!(drain_ok(&mut s), vec!["hello"]);
    assert!(!s.is_active());
}

#[test]
fn rejects_malformed_close_last_chunk_index_and_stays_active() {
    let mut s = make_session("token-malformed-last", 8, 1024);
    s.process_frame(0, 1, start()).unwrap();
    s.process_frame(0, 2, chunk(0, "hello")).unwrap();
    assert!(is_sequence(&s.process_frame(0, 3, close(Some(5))).unwrap_err()));
    assert!(s.is_active());

    s.abort(Some("cleanup".to_string()));
    assert_eq!(s.poll_next(), StreamItem::Chunk("hello".to_string()));
    expect_abort(&mut s, "cleanup");
    assert!(!s.is_active());
}

#[test]
fn rejects_negative_chunk_index_and_stays_active() {
    let negative = r#"{ "type": "open-stream", "frameType": "chunk", "chunkIndex": -1, "data": "oops" }"#;
    assert_eq!(OpenStreamFrame::from_cvm_value(&json(negative)), None);
    let fractional =
        r#"{ "type": "open-stream", "frameType": "chunk", "chunkIndex": 1.5, "data": "oops" }"#;
    assert_eq!(OpenStreamFrame::from_cvm_value(&json(fractional)), None);

    let mut registry = OpenStreamRegistry::new();
    registry
        .process_frame(0, &start().into_progress_notification("tok-neg", 1, None))
        .result
        .unwrap();
    assert_eq!(registry.size(), 1);

    let bad = progress(&format!(
        r#"{{ "progressToken": "tok-neg", "progress": 2, "cvm": {negative} }}"#
    ));
    assert!(is_sequence(&registry.process_frame(0, &bad).result.unwrap_err()));

    assert_eq!(registry.size(), 1);
    assert!(registry.get_session("tok-neg").unwrap().is_active());
}

#[test]
fn zero_chunk_close_succeeds() {
    let mut s = make_session("token-zero-chunk", 8, 1024);
    s.process_frame(0, 1, start()).unwrap();
    assert_eq!(s.process_frame(0, 2, close(None)).unwrap(), FrameOutcome::Closed);
    assert_eq!(s.poll_next(), StreamItem::Ended);
    assert!(!s.is_active());
}

#[test]
fn chunk_filling_last_gap_after_close_yields_closed() {
    let mut s = make_session("token-fill-gap", 8, 1024);
    s.process_frame(0, 1, start()).unwrap();
    s.process_frame(0, 2, chunk(1, "world")).unwrap();
    assert_eq!(s.process_frame(0, 3, close(Some(1))).unwrap(), FrameOutcome::Nothing);
    assert_eq!(s.process_frame(0, 4, chunk(0, "hello ")).unwrap(), FrameOutcome::Closed);
    assert_eq!(drain_ok(&mut s), vec!["hello ", "world"]);
}

#[test]
fn parked_reader_is_woken_by_an_arriving_chunk() {
    let mut s = make_session("token-park", 8, 1024);
    s.process_frame(0, 1, start()).unwrap();
    assert_eq!(s.poll_next(), StreamItem::Pending);
    s.process_frame(0, 2, chunk(0, "x")).unwrap();
    assert_eq!(s.poll_next(), StreamItem::Chunk("x".to_string()));
}

#[test]
fn consumer_abort_publishes_an_abort_frame_then_finalizes() {
    let mut s = session_with(
        "token-consumer-abort",
        StreamLimits {
            max_buffered_chunks: 8,
            max_buffered_bytes: 1024,
            idle_timeout_ms: 30_000,
            probe_timeout_ms: 20_000,
            close_grace_period_ms: 5_000,
        },
        true,
    );
    s.process_frame(0, 1, start()).unwrap();

    let published = s.abort(Some("user cancelled".to_string())).unwrap();
    assert_eq!(at(cvm(&published), "frameType"), &text("abort"));
    assert_eq!(at(cvm(&published), "reason"), &text("user cancelled"));

    expect_abort(&mut s, "user cancelled");
    assert!(s.abort(None).is_none());
}

#[test]
fn ping_frame_requests_a_pong() {
    let mut s = make_session("token-ping", 8, 1024);
    s.process_frame(0, 1, start()).unwrap();
    assert_eq!(
        s.process_frame(0, 2, OpenStreamFrame::Ping { nonce: "nonce-1".to_string() }).unwrap(),
        FrameOutcome::SendPong("nonce-1".to_string())
    );
}

#[test]
fn idle_sends_ping_then_probe_timeout_aborts() {
    let mut s = make_session_timers("token-probe", 10, 10, 100);
    s.process_frame(0, 1, start()).unwrap();

    assert_eq!(s.tick(5), KeepaliveAction::Nothing);
    assert_eq!(s.tick(10), KeepaliveAction::SendPing("token-probe:1".to_string()));
    assert_eq!(s.tick(15), KeepaliveAction::Nothing);
    assert_eq!(s.tick(20), KeepaliveAction::Abort("Probe timeout".to_string()));

    expect_abort(&mut s, "Probe timeout");
}

#[test]
fn matching_pong_clears_probe_and_stream_survives() {
    let mut s = make_session_timers("token-probe-ok", 10, 20, 100);
    s.process_frame(0, 1, start()).unwrap();

    let nonce = match s.tick(10) {
        KeepaliveAction::SendPing(nonce) => nonce,
        other => panic!("expected a ping, got {other:?}"),
    };
    s.process_frame(15, 2, OpenStreamFrame::Pong { nonce }).unwrap();

    assert!(!matches!(s.tick(30), KeepaliveAction::Abort(_)));
    assert!(s.is_active());
}

#[test]
fn unexpected_pong_is_ignored_for_liveness() {
    let mut s = make_session_timers("token-bad-pong", 10, 10, 100);
    s.process_frame(0, 1, start()).unwrap();
    assert!(matches!(s.tick(10), KeepaliveAction::SendPing(_)));

    s.process_frame(12, 2, OpenStreamFrame::Pong { nonce: "unexpected".to_string() }).unwrap();

    assert_eq!(s.tick(20), KeepaliveAction::Abort("Probe timeout".to_string()));
    expect_abort(&mut s, "Probe timeout");
}

#[test]
fn close_grace_deadline_with_missing_chunks_aborts() {
    let mut s = make_session_timers("token-grace", 100, 100, 10);
    s.process_frame(0, 1, start()).unwrap();
    s.process_frame(0, 2, chunk(1, "late")).unwrap();
    assert_eq!(s.process_frame(0, 3, close(None)).unwrap(), FrameOutcome::Nothing);

    assert_eq!(s.tick(5), KeepaliveAction::Nothing);
    assert_eq!(s.tick(10), KeepaliveAction::Abort("Close grace period expired".to_string()));
    expect_abort(&mut s, "Close grace period expired");
}

#[test]
fn close_with_missing_tail_and_nothing_buffered_fails_immediately_without_grace() {
    let mut s = make_session_timers("token-no-grace", 100, 100, 10);
    s.process_frame(0, 1, start()).unwrap();
    s.process_frame(0, 2, chunk(0, "hello")).unwrap();
    assert!(is_sequence(&s.process_frame(0, 3, close(Some(1))).unwrap_err()));
    assert_eq!(s.tick(60_000), KeepaliveAction::Nothing);
}

// The registry.

fn notif(token: &str, progress: u64, frame: OpenStreamFrame) -> JsonRpcNotification {
    frame.into_progress_notification(token, progress, None)
}

fn small_policy(max_concurrent: usize) -> OpenStreamRegistryPolicy {
    OpenStreamRegistryPolicy {
        max_concurrent_streams: max_concurrent,
        max_buffered_chunks_per_stream: 4,
        max_buffered_bytes_per_stream: 128,
        ..OpenStreamRegistryPolicy::default()
    }
}

#[test]
fn enforces_max_concurrent_and_reuses_slot_after_close() {
    let mut registry = OpenStreamRegistry::with_policy(small_policy(1));
    registry.create_session("token-1", 0).unwrap();
    assert!(matches!(
        registry.create_session("token-2", 0).unwrap_err(),
        OpenStreamError::Policy(_)
    ));

    registry.process_frame(0, &notif("token-1", 1, start())).result.unwrap();
    registry.process_frame(0, &notif("token-1", 2, close(None))).result.unwrap();

    registry.create_session("token-2", 0).unwrap();
    assert_eq!(registry.size(), 1);
}

#[test]
fn get_or_create_reuses_the_same_session() {
    let mut registry = OpenStreamRegistry::with_policy(small_policy(2));
    registry.get_or_create_session("token-shared", 0).unwrap();
    registry.process_frame(0, &notif("token-shared", 1, start())).result.unwrap();
    registry.get_or_create_session("token-shared", 0).unwrap();
    assert!(registry.get_session("token-shared").unwrap().has_started());
    assert_eq!(registry.size(), 1);
}

#[test]
fn rejects_creating_a_duplicate_token() {
    let mut registry = OpenStreamRegistry::with_policy(small_policy(4));
    registry.create_session("token-dup", 0).unwrap();
    assert!(is_sequence(&registry.create_session("token-dup", 0).unwrap_err()));
    assert_eq!(registry.size(), 1);
}

#[test]
fn routes_a_duplicate_start_frame_to_a_sequence_error() {
    let mut registry = OpenStreamRegistry::with_policy(small_policy(2));
    registry.process_frame(0, &notif("token-dup-start", 1, start())).result.unwrap();
    let err = registry.process_frame(0, &notif("token-dup-start", 2, start())).result.unwrap_err();
    assert!(is_sequence(&err));
    assert!(registry.get_session("token-dup-start").is_none());
}

#[test]
fn rejects_non_start_frames_for_unknown_tokens() {
    let mut registry = OpenStreamRegistry::with_policy(small_policy(2));
    let err = registry
        .process_frame(0, &notif("token-missing-start", 1, chunk(0, "orphan")))
        .result
        .unwrap_err();
    assert!(is_sequence(&err));
    assert!(registry.get_session("token-missing-start").is_none());
    assert_eq!(registry.size(), 0);
}

#[test]
fn terminates_session_when_frame_processing_fails_after_creation() {
    let mut registry = OpenStreamRegistry::with_policy(OpenStreamRegistryPolicy {
        max_buffered_bytes_per_stream: 4,
        ..small_policy(2)
    });
    registry.process_frame(0, &notif("token-fail", 1, start())).result.unwrap();

    let routed = registry.process_frame(0, &notif("token-fail", 2, chunk(1, "hello")));
    assert!(is_sequence(&routed.result.unwrap_err()));
    assert!(registry.get_session("token-fail").is_none());

    let mut ended = routed.ended.unwrap();
    match ended.session.poll_next() {
        StreamItem::Failed(OpenStreamError::Sequence(_)) => {}
        other => panic!("expected sequence error on the stream, got {other:?}"),
    }
}

#[test]
fn applies_default_buffering_limits() {
    let mut registry = OpenStreamRegistry::new();
    registry.process_frame(0, &notif("token-chunks", 1, start())).result.unwrap();
    for i in 0..DEFAULT_MAX_BUFFERED_CHUNKS_PER_STREAM as u64 {
        registry
            .process_frame(0, &notif("token-chunks", i + 2, chunk(i + 1, "x")))
            .result
            .unwrap();
    }
    let err = registry
        .process_frame(
            0,
            &notif(
                "token-chunks",
                DEFAULT_MAX_BUFFERED_CHUNKS_PER_STREAM as u64 + 2,
                chunk(DEFAULT_MAX_BUFFERED_CHUNKS_PER_STREAM as u64 + 1, "x"),
            ),
        )
        .result
        .unwrap_err();
    assert!(is_sequence(&err));

    let mut byte_registry = OpenStreamRegistry::new();
    byte_registry.process_frame(0, &notif("token-bytes", 1, start())).result.unwrap();
    let oversized = "x".repeat(DEFAULT_MAX_BUFFERED_BYTES_PER_STREAM + 1);
    let err = byte_registry
        .process_frame(0, &notif("token-bytes", 2, chunk(1, &oversized)))
        .result
        .unwrap_err();
    assert!(is_sequence(&err));
}

#[test]
fn ping_frame_routes_to_a_pong_outcome() {
    let mut registry = OpenStreamRegistry::new();
    registry.process_frame(0, &notif("token-timers", 1, start())).result.unwrap();
    let outcome = registry
        .process_frame(
            0,
            &notif("token-timers", 2, OpenStreamFrame::Ping { nonce: "peer-nonce".to_string() }),
        )
        .result
        .unwrap();
    assert_eq!(outcome, FrameOutcome::SendPong("peer-nonce".to_string()));
}

#[test]
fn clear_disposes_active_sessions() {
    let mut registry = OpenStreamRegistry::with_policy(small_policy(2));
    registry.create_session("token-clear", 0).unwrap();
    registry.process_frame(0, &notif("token-clear", 1, start())).result.unwrap();

    let mut ended = registry.clear();
    assert_eq!(registry.size(), 0);
    assert_eq!(ended.len(), 1);
    assert_eq!(ended[0].0, "token-clear");
    assert!(!ended[0].1.is_active());
    assert_eq!(ended[0].1.poll_next(), StreamItem::Ended);
}

#[test]
fn accepts_start_frame_with_advisory_metadata_omitted() {
    let mut registry = OpenStreamRegistry::with_policy(small_policy(2));
    let outcome = registry.process_frame(0, &notif("token-advisory", 1, start())).result.unwrap();
    assert_eq!(outcome, FrameOutcome::Nothing);
    assert!(registry.get_session("token-advisory").is_some());

    registry.clear();
    assert_eq!(registry.size(), 0);
}

#[test]
fn rejects_malformed_non_cep41_payloads() {
    let malformed = [
        r#"{ "progressToken": "missing-cvm", "progress": 1 }"#,
        r#"{ "progressToken": "wrong-type", "progress": 1, "cvm": { "type": "other", "frameType": "start" } }"#,
        r#"{ "progressToken": "missing-frame-type", "progress": 1, "cvm": { "type": "open-stream" } }"#,
    ];
    for params in malformed {
        assert!(!OpenStreamRegistry::is_open_stream_progress(&progress(params)));
    }
    assert!(OpenStreamRegistry::is_open_stream_progress(&notif("ok", 1, start())));

    let mut registry = OpenStreamRegistry::new();
    let bad = progress(r#"{ "progressToken": "t", "progress": 1 }"#);
    assert!(is_sequence(&registry.process_frame(0, &bad).result.unwrap_err()));
}

#[test]
fn rejects_accept_as_the_first_frame() {
    let mut registry = OpenStreamRegistry::with_policy(small_policy(2));
    let err = registry
        .process_frame(0, &notif("token-orphan-accept", 1, OpenStreamFrame::Accept))
        .result
        .unwrap_err();
    assert!(is_sequence(&err));
    assert!(registry.get_session("token-orphan-accept").is_none());
}

#[test]
fn removes_session_even_when_on_close_hook_errors() {
    let mut registry = OpenStreamRegistry::with_policy(small_policy(1));
    registry.create_session_with("token-close-throws", false, 0).unwrap();

    registry.process_frame(0, &notif("token-close-throws", 1, start())).result.unwrap();
    let routed = registry.process_frame(0, &notif("token-close-throws", 2, close(None)));
    routed.result.unwrap();
    assert_eq!(routed.ended.unwrap().end, StreamEnd::Closed);

    assert!(registry.get_session("token-close-throws").is_none());
    assert_eq!(registry.size(), 0);
}

#[test]
fn consumer_abort_frees_slot_and_runs_hook() {
    let mut registry = OpenStreamRegistry::with_policy(small_policy(1));
    registry.create_session_with("token-consumer-abort", false, 0).unwrap();
    assert!(matches!(
        registry.create_session("token-other", 0).unwrap_err(),
        OpenStreamError::Policy(_)
    ));

    let mut ended = registry
        .consumer_abort("token-consumer-abort", Some("user cancelled".to_string()))
        .unwrap();

    assert_eq!(registry.size(), 0);
    assert!(registry.get_session("token-consumer-abort").is_none());
    assert_eq!(ended.end, StreamEnd::Aborted(Some("user cancelled".to_string())));
    expect_abort(&mut ended.session, "user cancelled");
    registry.create_session("token-other", 0).unwrap();
}

#[test]
fn removes_session_even_when_on_abort_hook_errors() {
    let mut registry = OpenStreamRegistry::with_policy(small_policy(1));
    registry.create_session_with("token-abort-throws", false, 0).unwrap();

    registry.process_frame(0, &notif("token-abort-throws", 1, start())).result.unwrap();
    let routed = registry.process_frame(0, &notif("token-abort-throws", 2, abort("boom")));
    routed.result.unwrap();

    assert!(registry.get_session("token-abort-throws").is_none());
    assert_eq!(registry.size(), 0);
    expect_abort(&mut routed.ended.unwrap().session, "boom");
}

#[test]
fn fires_only_on_close_on_graceful_close_and_only_on_abort_on_abort() {
    let mut fired: Vec<String> = Vec::new();
    let mut registry = OpenStreamRegistry::with_policy(small_policy(4));
    let mut run = |token: &str, last: OpenStreamFrame| {
        registry.create_session_with(token, false, 0).unwrap();
        registry.process_frame(0, &notif(token, 1, start())).result.unwrap();
        let routed = registry.process_frame(0, &notif(token, 2, last));
        routed.result.unwrap();
        match routed.ended.unwrap().end {
            StreamEnd::Closed => fired.push(format!("close:{token}")),
            StreamEnd::Aborted(_) => fired.push(format!("abort:{token}")),
        }
    };
    run("graceful", close(None));
    run("aborted", abort("bye"));
    assert_eq!(fired, vec!["close:graceful".to_string(), "abort:aborted".to_string()]);
}

// The writer.

fn make_writer(token: &str) -> OpenStreamWriter {
    OpenStreamWriter::new(OpenStreamWriterOptions {
        progress_token: token.to_string(),
        content_type: None,
    })
}

/// Performs an operation, logging what is published and which hook runs. A frame of the type
/// `failing` cannot be published.
fn perform(
    writer: &mut OpenStreamWriter,
    op: WriterOp,
    log: &mut Vec<JsonRpcNotification>,
    hooks: &mut Vec<String>,
    failing: Option<&str>,
) -> Result<(), String> {
    loop {
        match writer.next_step(&op) {
            WriterStep::Finished => return Ok(()),
            WriterStep::PublishStart(n) => {
                if failing == Some("start") {
                    return Err("relay unavailable".to_string());
                }
                log.push(n);
                writer.start_published();
            }
            WriterStep::Publish(n) => {
                let fails = failing == at(cvm(&n), "frameType").as_str();
                if !fails {
                    log.push(n);
                }
                match writer.completed(&op, !fails) {
                    Some(StreamEnd::Closed) => hooks.push("close".to_string()),
                    Some(StreamEnd::Aborted(r)) => {
                        hooks.push(format!("abort:{}", r.unwrap_or_default()))
                    }
                    None => {}
                }
                return if fails { Err("publish failed".to_string()) } else { Ok(()) };
            }
        }
    }
}

fn run_all(token: &str, ops: Vec<WriterOp>) -> Vec<JsonRpcNotification> {
    let mut writer = make_writer(token);
    let mut log = Vec::new();
    for op in ops {
        perform(&mut writer, op, &mut log, &mut Vec::new(), None).unwrap();
    }
    log
}

fn frame_type(n: &JsonRpcNotification) -> String {
    at(cvm(n), "frameType").as_str().unwrap().to_string()
}

fn frame_types(log: &[JsonRpcNotification]) -> Vec<String> {
    log.iter().map(frame_type).collect()
}

fn progress_of(n: &JsonRpcNotification) -> u64 {
    at(params(n), "progress").as_u64().unwrap()
}

fn write(data: &str) -> WriterOp {
    WriterOp::Write(data.to_string())
}

#[test]
fn has_started_reflects_start_or_chunk_frame() {
    let mut writer = make_writer("token-started");
    let mut log = Vec::new();
    let mut hooks = Vec::new();
    assert!(writer.is_active());
    assert!(!writer.has_started());

    perform(&mut writer, WriterOp::Ping, &mut log, &mut hooks, None).unwrap();
    perform(&mut writer, WriterOp::Pong("nonce".to_string()), &mut log, &mut hooks, None).unwrap();
    assert!(!writer.has_started());

    perform(&mut writer, write("hello"), &mut log, &mut hooks, None).unwrap();
    assert!(writer.has_started());
}

#[test]
fn has_started_after_explicit_start() {
    let mut writer = make_writer("tok");
    let mut log = Vec::new();
    assert!(!writer.has_started());

    perform(&mut writer, WriterOp::Start, &mut log, &mut Vec::new(), None).unwrap();

    assert!(writer.has_started());
    assert_eq!(frame_types(&log), vec!["start"]);
}

#[test]
fn emits_ping_and_pong_with_matching_nonces() {
    let frames = run_all(
        "token-keepalive",
        vec![WriterOp::Start, WriterOp::Ping, WriterOp::Pong("keepalive-nonce".to_string())],
    );
    assert_eq!(frames.len(), 3);
    assert_eq!(progress_of(&frames[1]), 2);
    assert_eq!(frame_type(&frames[1]), "ping");
    assert_eq!(at(cvm(&frames[1]), "nonce"), &text("token-keepalive:1"));
    assert_eq!(progress_of(&frames[2]), 3);
    assert_eq!(frame_type(&frames[2]), "pong");
    assert_eq!(at(cvm(&frames[2]), "nonce"), &text("keepalive-nonce"));
}

#[test]
fn close_omits_last_chunk_index_when_no_chunks() {
    let frames = run_all("tok", vec![WriterOp::Close]);
    assert_eq!(frames.len(), 2);
    assert_eq!(frame_type(&frames[1]), "close");
    assert!(cvm(&frames[1]).get("lastChunkIndex").is_none());
}

#[test]
fn close_includes_last_chunk_index_after_chunks() {
    let frames = run_all("tok", vec![write("hello"), write("world"), WriterOp::Close]);
    assert_eq!(frames.len(), 4);
    assert_eq!(frame_type(&frames[3]), "close");
    assert_eq!(at(cvm(&frames[3]), "lastChunkIndex"), &num(1));
}

#[test]
fn lifecycle_hooks_fire_after_terminal_frames() {
    let mut log = Vec::new();
    let mut lifecycle = Vec::new();

    let mut writer = make_writer("token-hooks");
    perform(&mut writer, WriterOp::Close, &mut log, &mut lifecycle, None).unwrap();
    assert_eq!(frame_type(log.last().unwrap()), "close");
    assert_eq!(lifecycle, vec!["close"]);

    let mut abort_writer = make_writer("token-hooks-abort");
    let op = WriterOp::Abort(Some("done".to_string()));
    perform(&mut abort_writer, op, &mut log, &mut lifecycle, None).unwrap();
    assert_eq!(frame_type(log.last().unwrap()), "abort");
    assert_eq!(at(cvm(log.last().unwrap()), "reason"), &text("done"));
    assert_eq!(lifecycle, vec!["close", "abort:done"]);
}

#[test]
fn publishes_abort_before_running_abort_hook() {
    let mut writer = make_writer("token-abort-order");
    let op = WriterOp::Abort(Some("ordered".to_string()));
    match writer.next_step(&op) {
        WriterStep::Publish(n) => assert_eq!(frame_type(&n), "abort"),
        other => panic!("expected the abort frame, got {other:?}"),
    }
    assert!(!writer.is_active());
    assert_eq!(writer.next_step(&op), WriterStep::Finished);
}

#[test]
fn retries_start_when_first_start_publish_fails() {
    let mut writer = make_writer("token-start-retry");
    let mut log = Vec::new();
    let mut hooks = Vec::new();
    assert!(perform(&mut writer, WriterOp::Start, &mut log, &mut hooks, Some("start")).is_err());
    perform(&mut writer, write("hello"), &mut log, &mut hooks, None).unwrap();
    assert_eq!(frame_types(&log), vec!["start", "chunk"]);
}

#[test]
fn runs_close_cleanup_when_close_publish_fails() {
    let mut writer = make_writer("token-close-fail");
    let mut lifecycle = Vec::new();
    let r = perform(&mut writer, WriterOp::Close, &mut Vec::new(), &mut lifecycle, Some("close"));
    assert!(r.is_err());
    assert!(!writer.is_active());
    assert_eq!(lifecycle, vec!["close"]);
}

#[test]
fn runs_abort_cleanup_when_abort_publish_fails() {
    let mut writer = make_writer("token-abort-fail");
    let mut lifecycle = Vec::new();
    let op = WriterOp::Abort(Some("cleanup".to_string()));
    assert!(perform(&mut writer, op, &mut Vec::new(), &mut lifecycle, Some("abort")).is_err());
    assert!(!writer.is_active());
    assert_eq!(lifecycle, vec!["abort:cleanup"]);
}

#[test]
fn abort_deactivates_without_waiting_for_a_stuck_write() {
    let mut writer = make_writer("token-stuck");
    let op = write("hello");
    assert!(matches!(writer.next_step(&op), WriterStep::PublishStart(_)));
    writer.start_published();
    match writer.next_step(&op) {
        WriterStep::Publish(n) => assert_eq!(frame_type(&n), "chunk"),
        other => panic!("expected the chunk, got {other:?}"),
    }

    let mut lifecycle = Vec::new();
    let stuck = WriterOp::Abort(Some("stuck publish".to_string()));
    perform(&mut writer, stuck, &mut Vec::new(), &mut lifecycle, None).unwrap();
    assert!(!writer.is_active());
    assert_eq!(lifecycle, vec!["abort:stuck publish"]);

    assert_eq!(writer.completed(&op, true), None);
}

#[test]
fn serializes_concurrent_writes_before_close() {
    let frames =
        run_all("token-concurrent", vec![write("hello"), write("world"), WriterOp::Close]);
    assert_eq!(frame_types(&frames), vec!["start", "chunk", "chunk", "close"]);
    assert_eq!(progress_of(&frames[1]), 2);
    assert_eq!(at(cvm(&frames[1]), "chunkIndex"), &num(0));
    assert_eq!(at(cvm(&frames[1]), "data"), &text("hello"));
    assert_eq!(progress_of(&frames[2]), 3);
    assert_eq!(at(cvm(&frames[2]), "chunkIndex"), &num(1));
    assert_eq!(at(cvm(&frames[2]), "data"), &text("world"));
    assert_eq!(progress_of(&frames[3]), 4);
    assert_eq!(at(cvm(&frames[3]), "lastChunkIndex"), &num(1));
}

// The library as a whole.

#[test]
fn a_reader_gets_what_a_writer_wrote() {
    let frames = run_all(
        "t",
        vec![write("a"), WriterOp::Ping, write("bc"), write("d"), WriterOp::Close],
    );
    let mut registry = OpenStreamRegistry::new();
    let mut got = Vec::new();
    for n in &frames {
        let routed = registry.process_frame(0, n);
        routed.result.unwrap();
        while let Some(StreamItem::Chunk(c)) = registry.poll_session("t") {
            got.push(c);
        }
        if let Some(mut ended) = routed.ended {
            assert_eq!(ended.end, StreamEnd::Closed);
            got.extend(drain_ok(&mut ended.session));
        }
    }
    assert_eq!(got, vec!["a", "bc", "d"]);
}

#[test]
fn a_writer_is_silent_after_its_end() {
    let mut writer = make_writer("t");
    let mut log = Vec::new();
    let mut hooks = Vec::new();
    perform(&mut writer, WriterOp::Close, &mut log, &mut hooks, None).unwrap();
    let published = log.len();
    for op in [
        WriterOp::Start,
        write("x"),
        WriterOp::Ping,
        WriterOp::Pong("n".to_string()),
        WriterOp::Close,
        WriterOp::Abort(None),
    ] {
        perform(&mut writer, op, &mut log, &mut hooks, None).unwrap();
    }
    assert_eq!(log.len(), published);
    assert_eq!(hooks, vec!["close"]);
}

#[test]
fn a_frame_touches_no_other_stream() {
    let mut registry = OpenStreamRegistry::new();
    registry.process_frame(0, &notif("a", 1, start())).result.unwrap();
    registry.process_frame(0, &notif("b", 1, start())).result.unwrap();
    registry.process_frame(0, &notif("b", 2, chunk(0, "x"))).result.unwrap();
    registry.process_frame(0, &notif("a", 2, abort("gone"))).result.unwrap();
    assert_eq!(registry.size(), 1);
    assert_eq!(registry.poll_session("b"), Some(StreamItem::Chunk("x".to_string())));
    assert_eq!(registry.poll_session("a"), None);
}

#[test]
fn a_sweep_probes_idle_streams_and_drops_silent_ones() {
    let mut registry = OpenStreamRegistry::with_policy(OpenStreamRegistryPolicy {
        idle_timeout_ms: 10,
        probe_timeout_ms: 10,
        ..OpenStreamRegistryPolicy::default()
    });
    registry.process_frame(0, &notif("a", 1, start())).result.unwrap();
    let sweep = registry.tick_all(10);
    assert_eq!(
        sweep.actions,
        vec![("a".to_string(), KeepaliveAction::SendPing("a:1".to_string()))]
    );
    assert!(sweep.ended.is_empty());
    let sweep = registry.tick_all(20);
    assert_eq!(
        sweep.actions,
        vec![("a".to_string(), KeepaliveAction::Abort("Probe timeout".to_string()))]
    );
    assert_eq!(sweep.ended.len(), 1);
    assert_eq!(registry.size(), 0);
}

#[test]
fn a_new_stream_takes_any_first_progress() {
    for first in [0, 1, i64::MAX] {
        let mut session = make_session("token-first", 8, 1_000);
        assert_eq!(session.process_frame(0, first, start()), Ok(FrameOutcome::Nothing));
    }
}

#[test]
fn progress_has_to_increase_over_all_frames() {
    let mut session = make_session("token-progress", 8, 1_000);
    session.process_frame(0, 3, start()).unwrap();
    session.process_frame(0, 5, chunk(0, "a")).unwrap();
    for stale in [-1, 0, 3, 5] {
        let refused = session.process_frame(0, stale, OpenStreamFrame::Accept);
        assert!(matches!(refused, Err(OpenStreamError::Sequence(_))));
    }
    assert!(session.process_frame(0, 6, chunk(0, "a")).is_err());
    assert!(session.process_frame(0, 6, chunk(1, "b")).is_err());
    session.process_frame(0, 7, chunk(1, "b")).unwrap();
    assert_eq!(session.poll_next(), StreamItem::Chunk("a".to_string()));
    assert_eq!(session.poll_next(), StreamItem::Chunk("b".to_string()));
}

#[test]
fn the_first_ending_of_a_stream_decides() {
    let mut session = make_session("token-endings", 8, 1_000);
    session.process_frame(0, 1, start()).unwrap();
    session.process_frame(0, 2, chunk(0, "a")).unwrap();
    session.fail(OpenStreamError::Sequence("first".to_string()));
    session.fail(OpenStreamError::Sequence("second".to_string()));
    session.dispose();
    assert!(!session.is_active());
    assert_eq!(session.poll_next(), StreamItem::Chunk("a".to_string()));
    assert_eq!(
        session.poll_next(),
        StreamItem::Failed(OpenStreamError::Sequence("first".to_string()))
    );
    assert_eq!(session.poll_next(), StreamItem::Ended);
}

#[test]
fn an_abort_goes_out_once() {
    let mut writer = make_writer("token-once");
    let mut log = Vec::new();
    let mut hooks = Vec::new();
    for reason in ["first", "second"] {
        let op = WriterOp::Abort(Some(reason.to_string()));
        perform(&mut writer, op, &mut log, &mut hooks, None).unwrap();
    }
    perform(&mut writer, WriterOp::Close, &mut log, &mut hooks, None).unwrap();
    assert_eq!(frame_types(&log), vec!["abort"]);
    assert_eq!(at(cvm(&log[0]), "reason"), &text("first"));
    assert_eq!(hooks, vec!["abort:first"]);
}

#[test]
fn a_chunk_that_was_not_published_leaves_its_index() {
    let mut writer = make_writer("token-index");
    let mut log = Vec::new();
    let mut hooks = Vec::new();
    assert!(perform(&mut writer, write("a"), &mut log, &mut hooks, Some("chunk")).is_err());
    perform(&mut writer, write("b"), &mut log, &mut hooks, None).unwrap();
    assert_eq!(frame_types(&log), vec!["start", "chunk"]);
    assert_eq!(at(cvm(&log[1]), "chunkIndex"), &num(0));
    assert!(hooks.is_empty());
}

#[test]
fn the_writer_has_a_method_for_every_operation() {
    let frame = |step: WriterStep| match step {
        WriterStep::PublishStart(n) | WriterStep::Publish(n) => {
            Some((frame_type(&n), progress_of(&n)))
        }
        WriterStep::Finished => None,
    };
    let mut writer = make_writer("token-methods");
    assert_eq!(frame(writer.write("a".to_string())), Some(("start".to_string(), 1)));
    assert_eq!(frame(writer.start()), Some(("start".to_string(), 2)));
    writer.start_published();
    assert_eq!(frame(writer.start()), None);
    assert_eq!(frame(writer.write("a".to_string())), Some(("chunk".to_string(), 3)));
    assert_eq!(frame(writer.ping()), Some(("ping".to_string(), 4)));
    assert_eq!(frame(writer.pong("n".to_string())), Some(("pong".to_string(), 5)));
    assert_eq!(frame(writer.close()), Some(("close".to_string(), 6)));
    assert_eq!(frame(writer.abort(None)), None);
    assert_eq!(frame(writer.write("b".to_string())), None);
    assert_eq!(frame(writer.ping()), None);
    assert_eq!(frame(writer.pong("n".to_string())), None);

    let mut writer = make_writer("token-methods");
    match writer.abort(Some("stop".to_string())) {
        WriterStep::Publish(n) => assert_eq!(at(cvm(&n), "reason"), &text("stop")),
        other => panic!("expected the abort, got {other:?}"),
    }
    assert_eq!(writer.close(), WriterStep::Finished);
}

#[test]
fn a_history_of_calls_hands_out_the_chunks_in_order() {
    let mut session = make_session("token-history", 8, 1_000);
    session.process_frame(0, 1, start()).unwrap();
    let mut got = Vec::new();
    session.process_frame(0, 2, chunk(1, "b")).unwrap();
    got.push(session.poll_next());
    session.process_frame(0, 3, chunk(0, "a")).unwrap();
    assert!(session.process_frame(0, 4, chunk(0, "x")).is_err());
    got.push(session.poll_next());
    assert_eq!(session.tick(5), KeepaliveAction::Nothing);
    session.process_frame(5, 6, chunk(3, "d")).unwrap();
    session.process_frame(5, 7, abort("enough")).unwrap();
    assert!(session.process_frame(5, 8, chunk(2, "c")).is_err());
    session.dispose();
    for _ in 0..4 {
        got.push(session.poll_next());
    }
    assert_eq!(
        got,
        vec![
            StreamItem::Pending,
            StreamItem::Chunk("a".to_string()),
            StreamItem::Chunk("b".to_string()),
            StreamItem::Failed(OpenStreamError::Abort {
                token: "token-history".to_string(),
                reason: Some("enough".to_string()),
            }),
            StreamItem::Ended,
            StreamItem::Ended,
        ]
    );
}
