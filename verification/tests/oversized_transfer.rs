use contextvm_sdk::json::{Fraction, Json, Number};
use contextvm_sdk::message::JsonRpcNotification;
use contextvm_sdk::transport::oversized_transfer::codec::{
    build_oversized_frames, sha256_digest, split_string_by_byte_size, utf8_byte_len,
    BuiltOversizedFrames, OversizedSenderOptions,
};
use contextvm_sdk::transport::oversized_transfer::constants::START_PROGRESS;
use contextvm_sdk::transport::oversized_transfer::errors::OversizedTransferError;
use contextvm_sdk::transport::oversized_transfer::frame::{
    progress_token_string, CompletionMode, OversizedFrame,
};
use contextvm_sdk::transport::oversized_transfer::receiver::{
    surface_message, OversizedTransferReceiver, TransferPolicy,
};
use contextvm_sdk::transport::oversized_transfer::sender::{
    OversizedSender, SendAction, SendEvent,
};
use contextvm_sdk::transport::oversized_transfer::sizing::{
    fits, needs_chunks, probe_frame, size_up, ChunkSizeSearch, SizeVerdict,
};
use contextvm_sdk::transport::oversized_transfer::OversizedTransferConfig;
use nostr_sdk::nips::nip44;
use nostr_sdk::{EventBuilder, JsonUtil, Keys, Kind, PublicKey, Tag};
use serde_json::Value;

fn convert(value: &Value) -> Json {
    match value {
        Value::Null => Json::Null,
        Value::Bool(b) => Json::Bool(*b),
        Value::Number(n) => Json::Number(if let Some(u) = n.as_u64() {
            Number::Unsigned(u)
        } else if let Some(i) = n.as_i64() {
            Number::Signed(i)
        } else {
            let f = n.as_f64().unwrap();
            Number::Fraction(Fraction {
                text: n.to_string(),
                whole: f.fract() == 0.0,
                positive: f > 0.0,
                clamped_u64: f as u64,
                clamped_i64: f as i64,
            })
        }),
        Value::String(s) => Json::Text(s.clone()),
        Value::Array(items) => Json::Array(items.iter().map(convert).collect()),
        Value::Object(map) => {
            Json::Object(map.iter().map(|(k, v)| (k.clone(), convert(v))).collect())
        }
    }
}

fn json(text: &str) -> Json {
    convert(&serde_json::from_str(text).unwrap())
}

fn text(s: &str) -> Json {
    Json::Text(s.to_string())
}

fn num(n: u64) -> Json {
    Json::Number(Number::Unsigned(n))
}

fn at<'a>(value: &'a Json, key: &str) -> &'a Json {
    value.get(key).unwrap()
}

fn params(n: &JsonRpcNotification) -> &Json {
    n.params.as_ref().unwrap()
}

fn cvm(n: &JsonRpcNotification) -> &Json {
    at(params(n), "cvm")
}

fn progress(text: &str) -> JsonRpcNotification {
    JsonRpcNotification {
        jsonrpc: "2.0".to_string(),
        method: "notifications/progress".to_string(),
        params: Some(json(text)),
    }
}


// Frames.

fn assert_cvm_roundtrip(frame: OversizedFrame) {
    let value = frame.to_cvm_value();
    assert_eq!(at(&value, "type"), &text("oversized-transfer"));
    assert_eq!(at(&value, "frameType"), &text(frame.frame_type()));
    assert_eq!(OversizedFrame::from_cvm_value(&value), Some(frame));
}

#[test]
fn start_frame_serializes_with_camel_case_fields() {
    let frame = OversizedFrame::Start {
        completion_mode: CompletionMode::Render,
        digest: "sha256:abcd".to_string(),
        total_bytes: 100,
        total_chunks: 3,
    };
    let value = frame.to_cvm_value();
    assert_eq!(at(&value, "type"), &text("oversized-transfer"));
    assert_eq!(at(&value, "frameType"), &text("start"));
    assert_eq!(at(&value, "completionMode"), &text("render"));
    assert_eq!(at(&value, "digest"), &text("sha256:abcd"));
    assert_eq!(at(&value, "totalBytes"), &num(100));
    assert_eq!(at(&value, "totalChunks"), &num(3));
    assert_cvm_roundtrip(frame);
}

#[test]
fn frame_all_frame_variants_roundtrip() {
    assert_cvm_roundtrip(OversizedFrame::Start {
        completion_mode: CompletionMode::Render,
        digest: "sha256:abcd".to_string(),
        total_bytes: 8,
        total_chunks: 2,
    });
    assert_cvm_roundtrip(OversizedFrame::Accept);
    assert_cvm_roundtrip(OversizedFrame::Chunk { data: "payload".to_string() });
    assert_cvm_roundtrip(OversizedFrame::End);
    assert_cvm_roundtrip(OversizedFrame::Abort { reason: Some("boom".to_string()) });
    assert_cvm_roundtrip(OversizedFrame::Abort { reason: None });
}

#[test]
fn frame_abort_reason_omitted_when_none() {
    let value = OversizedFrame::Abort { reason: None }.to_cvm_value();
    assert!(value.get("reason").is_none());
}

#[test]
fn frame_from_cvm_value_rejects_wrong_type() {
    let value = json(r#"{ "type": "something-else", "frameType": "end" }"#);
    assert_eq!(OversizedFrame::from_cvm_value(&value), None);
    assert!(!OversizedFrame::is_frame_value(&value));
}

#[test]
fn frame_from_cvm_value_rejects_unknown_frame_type() {
    let value = json(r#"{ "type": "oversized-transfer", "frameType": "bogus" }"#);
    assert_eq!(OversizedFrame::from_cvm_value(&value), None);
}

#[test]
fn frame_is_frame_value_requires_type_and_frame_type() {
    assert!(OversizedFrame::is_frame_value(&json(
        r#"{ "type": "oversized-transfer", "frameType": "chunk", "data": "x" }"#
    )));
    assert!(!OversizedFrame::is_frame_value(&json(r#"{ "type": "oversized-transfer" }"#)));
    assert!(!OversizedFrame::is_frame_value(&json(r#"{ "frameType": "chunk" }"#)));
    assert!(!OversizedFrame::is_frame_value(&json(r#""not an object""#)));
}

#[test]
fn frame_into_progress_notification_builds_progress_envelope() {
    let notification = OversizedFrame::Chunk { data: "frag".to_string() }
        .into_progress_notification("tok-1", 7, Some("hi"));

    assert_eq!(notification.method, "notifications/progress");
    let p = params(&notification);
    assert_eq!(at(p, "progressToken"), &text("tok-1"));
    assert_eq!(at(p, "progress"), &num(7));
    assert_eq!(at(p, "message"), &text("hi"));
    assert_eq!(at(at(p, "cvm"), "frameType"), &text("chunk"));
    assert_eq!(at(at(p, "cvm"), "data"), &text("frag"));
}

#[test]
fn frame_into_progress_notification_omits_absent_message() {
    let notification = OversizedFrame::End.into_progress_notification("tok-1", 9, None);
    assert!(params(&notification).get("message").is_none());
}

#[test]
fn progress_token_string_accepts_string_and_number() {
    assert_eq!(progress_token_string(&json(r#""tok-1""#)), Some("tok-1".to_string()));
    assert_eq!(progress_token_string(&json("7")), Some("7".to_string()));
    assert_eq!(progress_token_string(&json("0")), Some("0".to_string()));
    assert_eq!(progress_token_string(&json("-3")), Some("-3".to_string()));
    assert_eq!(progress_token_string(&json("7.5")), Some("7.5".to_string()));
}

#[test]
fn progress_token_string_rejects_other_types() {
    assert_eq!(progress_token_string(&json("null")), None);
    assert_eq!(progress_token_string(&json("true")), None);
    assert_eq!(progress_token_string(&json(r#"{ "t": 1 }"#)), None);
    assert_eq!(progress_token_string(&json("[1]")), None);
}

// The receiver.

const TOKEN: &str = "tok";

/// The text of a response.
fn sample_response(id: i64, value: &str) -> String {
    format!(
        r#"{{"jsonrpc":"2.0","id":{id},"result":{{"value":{}}}}}"#,
        serde_json::to_string(value).unwrap()
    )
}

fn build(serialized: &str, chunk_size: usize) -> BuiltOversizedFrames {
    let opts = OversizedSenderOptions::new(TOKEN).with_chunk_size(chunk_size);
    build_oversized_frames(serialized, &opts).unwrap()
}

fn start_frame(
    token: &str,
    progress: u64,
    digest: &str,
    total_bytes: u64,
    total_chunks: u64,
) -> JsonRpcNotification {
    OversizedFrame::Start {
        completion_mode: CompletionMode::Render,
        digest: digest.to_string(),
        total_bytes,
        total_chunks,
    }
    .into_progress_notification(token, progress, None)
}

fn chunk_frame(token: &str, progress: u64, data: &str) -> JsonRpcNotification {
    OversizedFrame::Chunk { data: data.to_string() }
        .into_progress_notification(token, progress, None)
}

fn end_frame(token: &str, progress: u64) -> JsonRpcNotification {
    OversizedFrame::End.into_progress_notification(token, progress, None)
}

fn accept_frame(token: &str, progress: u64) -> JsonRpcNotification {
    OversizedFrame::Accept.into_progress_notification(token, progress, None)
}

/// The text of a failure.
fn detail(e: &OversizedTransferError) -> String {
    match e {
        OversizedTransferError::Policy(s)
        | OversizedTransferError::Sequence(s)
        | OversizedTransferError::Reassembly(s)
        | OversizedTransferError::Digest(s) => s.clone(),
        OversizedTransferError::Abort { reason, .. } => reason.clone().unwrap_or_default(),
    }
}

fn is_sequence(e: &OversizedTransferError) -> bool {
    matches!(e, OversizedTransferError::Sequence(_))
}

fn run_to_completion(
    receiver: &mut OversizedTransferReceiver,
    frames: BuiltOversizedFrames,
    now: u64,
) -> String {
    let mut out = None;
    for frame in frames.into_ordered() {
        if let Some(payload) = receiver.process_frame(now, &frame).unwrap() {
            out = Some(payload);
        }
    }
    out.expect("transfer should complete on the end frame")
}

fn value_of(text: &str) -> Value {
    serde_json::from_str(text).unwrap()
}

#[test]
fn roundtrip_in_order() {
    let message = sample_response(1, &"x".repeat(60));
    let frames = build(&message, 8);
    assert!(frames.chunks.len() > 1);

    let mut receiver = OversizedTransferReceiver::new();
    let reconstructed = run_to_completion(&mut receiver, frames, 0);

    assert_eq!(reconstructed, message);
    assert_eq!(value_of(&reconstructed), value_of(&message));
    assert_eq!(receiver.active_transfer_count(), 0);
}

#[test]
fn roundtrip_request_message() {
    let message = format!(
        r#"{{"jsonrpc":"2.0","id":"abc","method":"tools/call","params":{{"blob":"{}"}}}}"#,
        "y".repeat(40)
    );
    let frames = build(&message, 10);

    let mut receiver = OversizedTransferReceiver::new();
    let reconstructed = run_to_completion(&mut receiver, frames, 0);
    assert_eq!(value_of(&reconstructed), value_of(&message));
}

#[test]
fn roundtrip_multibyte_payload() {
    let message = sample_response(7, "héllo 🦀 wörld 日本語 ☃ même 🚀🚀");
    let frames = build(&message, 5);

    let mut receiver = OversizedTransferReceiver::new();
    let reconstructed = run_to_completion(&mut receiver, frames, 0);
    assert_eq!(value_of(&reconstructed), value_of(&message));
}

#[test]
fn roundtrip_out_of_order_within_window() {
    let message = sample_response(2, &"z".repeat(60));
    let frames = build(&message, 8);
    assert!(frames.chunks.len() >= 3);

    let mut receiver = OversizedTransferReceiver::with_policy(TransferPolicy {
        max_out_of_order_window: 4,
        max_out_of_order_chunks: 4,
        ..Default::default()
    });

    receiver.process_frame(0, &frames.start).unwrap();
    receiver.process_frame(0, &frames.chunks[1]).unwrap();
    receiver.process_frame(0, &frames.chunks[0]).unwrap();
    for chunk in &frames.chunks[2..] {
        receiver.process_frame(0, chunk).unwrap();
    }
    let reconstructed = receiver.process_frame(0, &frames.end).unwrap().unwrap();

    assert_eq!(value_of(&reconstructed), value_of(&message));
    assert_eq!(receiver.active_transfer_count(), 0);
}

#[test]
fn roundtrip_accept_gated_handshake() {
    let message = sample_response(6, &"q".repeat(40));
    let opts =
        OversizedSenderOptions::new(TOKEN).with_chunk_size(8).with_accept_handshake(true);
    let frames = build_oversized_frames(&message, &opts).unwrap();

    let mut receiver = OversizedTransferReceiver::new();
    receiver.process_frame(0, &frames.start).unwrap();
    receiver.process_frame(0, &accept_frame(TOKEN, 2)).unwrap();
    for chunk in &frames.chunks {
        receiver.process_frame(0, chunk).unwrap();
    }
    let reconstructed = receiver.process_frame(0, &frames.end).unwrap().unwrap();

    assert_eq!(value_of(&reconstructed), value_of(&message));
}

#[test]
fn out_of_order_gap_over_window_is_policy_error() {
    let message = sample_response(2, "abcdefghijklmnop");
    let frames = build(&message, 4);
    assert!(frames.chunks.len() >= 3);

    let mut receiver = OversizedTransferReceiver::with_policy(TransferPolicy {
        max_out_of_order_window: 1,
        ..Default::default()
    });
    receiver.process_frame(0, &frames.start).unwrap();

    let err = receiver.process_frame(0, &frames.chunks[2]).unwrap_err();
    assert!(matches!(err, OversizedTransferError::Policy(_)));
    assert_eq!(receiver.active_transfer_count(), 0);
}

#[test]
fn chunk_with_u64_max_progress_does_not_panic() {
    let mut receiver = OversizedTransferReceiver::new();
    receiver.process_frame(0, &start_frame(TOKEN, 1, "sha256:abcd", 4, 1)).unwrap();

    let err = receiver.process_frame(0, &chunk_frame(TOKEN, u64::MAX, "x")).unwrap_err();
    assert!(matches!(
        err,
        OversizedTransferError::Policy(_) | OversizedTransferError::Sequence(_)
    ));
    assert_eq!(receiver.active_transfer_count(), 0);
}

#[test]
fn first_chunk_skipping_reserved_accept_slot_is_sequence_error() {
    let mut receiver = OversizedTransferReceiver::new();
    receiver.process_frame(0, &start_frame(TOKEN, 1, "sha256:abcd", 20, 5)).unwrap();

    let err = receiver.process_frame(0, &chunk_frame(TOKEN, 4, "data")).unwrap_err();
    assert!(is_sequence(&err));
    assert!(detail(&err).contains("reserved accept slot"));
    assert_eq!(receiver.active_transfer_count(), 0);
}

#[test]
fn accept_not_advancing_past_start_is_sequence_error() {
    let mut receiver = OversizedTransferReceiver::new();
    receiver.process_frame(0, &start_frame(TOKEN, START_PROGRESS, "sha256:abcd", 4, 1)).unwrap();

    let err = receiver.process_frame(0, &accept_frame(TOKEN, START_PROGRESS)).unwrap_err();
    assert!(is_sequence(&err));
    assert_eq!(receiver.active_transfer_count(), 0);
}

#[test]
fn invalid_accept_leaves_oneshot_unfired() {
    let mut receiver = OversizedTransferReceiver::new();
    receiver.process_frame(0, &start_frame(TOKEN, START_PROGRESS, "sha256:abcd", 4, 1)).unwrap();

    let (accept_tx, mut accept_rx) = tokio::sync::oneshot::channel::<()>();
    match receiver.process_frame(0, &accept_frame(TOKEN, START_PROGRESS)) {
        Ok(_) => {
            let _ = accept_tx.send(());
        }
        Err(error) => {
            assert!(is_sequence(&error));
            assert!(matches!(
                accept_rx.try_recv(),
                Err(tokio::sync::oneshot::error::TryRecvError::Empty)
            ));
            drop(accept_tx);
        }
    }
    assert!(accept_rx.try_recv().is_err());
    assert_eq!(receiver.active_transfer_count(), 0);
}

#[test]
fn digest_mismatch_is_digest_error() {
    let serialized = sample_response(1, "hello");
    let total_bytes = serialized.len() as u64;

    let mut receiver = OversizedTransferReceiver::new();
    receiver.process_frame(0, &start_frame(TOKEN, 1, "sha256:deadbeef", total_bytes, 1)).unwrap();
    receiver.process_frame(0, &chunk_frame(TOKEN, 2, &serialized)).unwrap();
    let err = receiver.process_frame(0, &end_frame(TOKEN, 3)).unwrap_err();

    assert!(matches!(err, OversizedTransferError::Digest(_)));
    assert!(detail(&err).to_lowercase().contains("digest"));
    assert_eq!(receiver.active_transfer_count(), 0);
}

#[test]
fn byte_length_mismatch_is_digest_error() {
    let serialized = sample_response(1, "hello");
    let digest = sha256_digest(&serialized);
    let wrong_total = serialized.len() as u64 + 1;

    let mut receiver = OversizedTransferReceiver::new();
    receiver.process_frame(0, &start_frame(TOKEN, 1, &digest, wrong_total, 1)).unwrap();
    receiver.process_frame(0, &chunk_frame(TOKEN, 2, &serialized)).unwrap();
    let err = receiver.process_frame(0, &end_frame(TOKEN, 3)).unwrap_err();

    assert!(matches!(err, OversizedTransferError::Digest(_)));
    assert!(detail(&err).to_lowercase().contains("byte length"));
}

#[test]
fn duplicate_start_is_sequence_error() {
    let start = start_frame(TOKEN, 1, "sha256:abcd", 4, 1);
    let mut receiver = OversizedTransferReceiver::new();
    receiver.process_frame(0, &start).unwrap();

    let err = receiver.process_frame(0, &start).unwrap_err();
    assert!(is_sequence(&err));
    assert!(detail(&err).contains("Duplicate start"));
    assert_eq!(receiver.active_transfer_count(), 1);
}

#[test]
fn chunk_count_mismatch_is_reassembly_error() {
    let mut receiver = OversizedTransferReceiver::new();
    receiver.process_frame(0, &start_frame(TOKEN, 1, "sha256:abcd", 8, 2)).unwrap();
    receiver.process_frame(0, &chunk_frame(TOKEN, 2, "abcd")).unwrap();
    let err = receiver.process_frame(0, &end_frame(TOKEN, 3)).unwrap_err();

    assert!(matches!(err, OversizedTransferError::Reassembly(_)));
    assert!(detail(&err).contains("Expected 2 chunks but received 1"));
    assert_eq!(receiver.active_transfer_count(), 0);
}

#[test]
fn conflicting_duplicate_chunk_is_sequence_error() {
    let mut receiver = OversizedTransferReceiver::new();
    receiver.process_frame(0, &start_frame(TOKEN, 1, "sha256:abcd", 8, 2)).unwrap();
    receiver.process_frame(0, &chunk_frame(TOKEN, 2, "abcd")).unwrap();
    let err = receiver.process_frame(0, &chunk_frame(TOKEN, 2, "wxyz")).unwrap_err();

    assert!(is_sequence(&err));
    assert_eq!(receiver.active_transfer_count(), 0);
}

#[test]
fn identical_duplicate_chunk_is_idempotent() {
    let mut receiver = OversizedTransferReceiver::new();
    receiver.process_frame(0, &start_frame(TOKEN, 1, "sha256:abcd", 8, 2)).unwrap();
    receiver.process_frame(0, &chunk_frame(TOKEN, 2, "abcd")).unwrap();
    assert!(receiver.process_frame(0, &chunk_frame(TOKEN, 2, "abcd")).unwrap().is_none());
    assert_eq!(receiver.active_transfer_count(), 1);
}

#[test]
fn end_not_advancing_progress_is_sequence_error() {
    let mut receiver = OversizedTransferReceiver::new();
    receiver.process_frame(0, &start_frame(TOKEN, 1, "sha256:abcd", 4, 1)).unwrap();
    receiver.process_frame(0, &chunk_frame(TOKEN, 2, "test")).unwrap();
    let err = receiver.process_frame(0, &end_frame(TOKEN, 2)).unwrap_err();
    assert!(is_sequence(&err));
}

#[test]
fn missing_token_is_sequence_error() {
    let frame = chunk_frame("", 2, "abcd");
    let mut receiver = OversizedTransferReceiver::new();
    let err = receiver.process_frame(0, &frame).unwrap_err();
    assert!(is_sequence(&err));
    assert!(detail(&err).contains("missing progressToken"));
}

#[test]
fn non_positive_progress_is_sequence_error() {
    let frame = start_frame(TOKEN, 0, "sha256:abcd", 4, 1);
    let mut receiver = OversizedTransferReceiver::new();
    let err = receiver.process_frame(0, &frame).unwrap_err();
    assert!(is_sequence(&err));
}

#[test]
fn abort_terminates_active_transfer() {
    let mut receiver = OversizedTransferReceiver::new();
    receiver.process_frame(0, &start_frame(TOKEN, 1, "sha256:abcd", 4, 1)).unwrap();

    let abort = OversizedFrame::Abort { reason: Some("peer cancelled".to_string()) }
        .into_progress_notification(TOKEN, 5, None);
    let err = receiver.process_frame(0, &abort).unwrap_err();

    assert!(err.is_abort());
    match err {
        OversizedTransferError::Abort { token, reason } => {
            assert_eq!(token, TOKEN);
            assert_eq!(reason.as_deref(), Some("peer cancelled"));
        }
        other => panic!("expected abort, got {other:?}"),
    }
    assert_eq!(receiver.active_transfer_count(), 0);
}

#[test]
fn orphan_abort_still_errors() {
    let mut receiver = OversizedTransferReceiver::new();
    let abort =
        OversizedFrame::Abort { reason: None }.into_progress_notification(TOKEN, 2, None);
    assert!(receiver.process_frame(0, &abort).unwrap_err().is_abort());
}

#[test]
fn start_over_byte_limit_is_policy_error() {
    let mut receiver = OversizedTransferReceiver::with_policy(TransferPolicy {
        max_transfer_bytes: 10,
        ..Default::default()
    });
    let err = receiver.process_frame(0, &start_frame(TOKEN, 1, "sha256:abcd", 11, 1)).unwrap_err();
    assert!(matches!(err, OversizedTransferError::Policy(_)));
    assert_eq!(receiver.active_transfer_count(), 0);
}

#[test]
fn start_over_chunk_limit_is_policy_error() {
    let mut receiver = OversizedTransferReceiver::with_policy(TransferPolicy {
        max_transfer_chunks: 1,
        ..Default::default()
    });
    let err = receiver.process_frame(0, &start_frame(TOKEN, 1, "sha256:abcd", 4, 2)).unwrap_err();
    assert!(matches!(err, OversizedTransferError::Policy(_)));
}

#[test]
fn start_over_concurrency_limit_is_policy_error() {
    let mut receiver = OversizedTransferReceiver::with_policy(TransferPolicy {
        max_concurrent_transfers: 1,
        ..Default::default()
    });
    receiver.process_frame(0, &start_frame("tok-a", 1, "sha256:abcd", 4, 1)).unwrap();
    let err =
        receiver.process_frame(0, &start_frame("tok-b", 1, "sha256:efgh", 4, 1)).unwrap_err();
    assert!(matches!(err, OversizedTransferError::Policy(_)));
}

#[test]
fn start_with_malformed_digest_is_reassembly_error() {
    let mut receiver = OversizedTransferReceiver::new();
    let err = receiver.process_frame(0, &start_frame(TOKEN, 1, "abcd", 4, 1)).unwrap_err();
    assert!(matches!(err, OversizedTransferError::Reassembly(_)));
}

#[test]
fn orphan_late_frames_are_ignored() {
    let mut receiver = OversizedTransferReceiver::new();
    assert!(receiver.process_frame(0, &accept_frame("orphan-accept", 2)).unwrap().is_none());
    assert!(receiver.process_frame(0, &chunk_frame("orphan-chunk", 2, "x")).unwrap().is_none());
    assert!(receiver.process_frame(0, &end_frame("orphan-end", 2)).unwrap().is_none());
    assert_eq!(receiver.active_transfer_count(), 0);
}

#[test]
fn non_frame_progress_notification_is_passthrough_none() {
    let mut receiver = OversizedTransferReceiver::new();
    let plain = progress(r#"{ "progressToken": "t", "progress": 3 }"#);
    assert!(receiver.process_frame(0, &plain).unwrap().is_none());

    let no_params = JsonRpcNotification {
        jsonrpc: "2.0".to_string(),
        method: "notifications/initialized".to_string(),
        params: None,
    };
    assert!(receiver.process_frame(0, &no_params).unwrap().is_none());
}

#[test]
fn is_oversized_frame_detects_cvm_payload() {
    let frame = end_frame(TOKEN, 3);
    assert!(OversizedTransferReceiver::is_oversized_frame(&frame));

    let plain = progress(r#"{ "progressToken": "t", "progress": 3 }"#);
    assert!(!OversizedTransferReceiver::is_oversized_frame(&plain));
}

#[test]
fn clear_releases_in_flight_state() {
    let mut receiver = OversizedTransferReceiver::new();
    receiver.process_frame(0, &start_frame(TOKEN, 1, "sha256:abcd", 4, 1)).unwrap();
    assert_eq!(receiver.active_transfer_count(), 1);
    receiver.clear();
    assert_eq!(receiver.active_transfer_count(), 0);
}

#[test]
fn reassembled_payload_exceeds_one_megabyte() {
    let message = sample_response(1, &"m".repeat(1_200_000));
    assert!(message.len() > 1_000_000);

    let frames = build(&message, 48_000);
    let mut receiver = OversizedTransferReceiver::new();
    let reconstructed = run_to_completion(&mut receiver, frames, 0);
    assert_eq!(value_of(&reconstructed), value_of(&message));
}

fn watchdog_policy(transfer_timeout_ms: u64) -> TransferPolicy {
    TransferPolicy { transfer_timeout_ms, ..TransferPolicy::default() }
}

#[test]
fn remove_expired_reaps_past_deadline_and_orphans_late_frames() {
    let mut receiver = OversizedTransferReceiver::with_policy(watchdog_policy(50));
    let mut frames = build(&sample_response(1, "payload"), 4).into_ordered();
    let rest = frames.split_off(1);
    receiver.process_frame(0, &frames[0]).unwrap();
    assert!(receiver.is_tracking(TOKEN));

    let reaped = receiver.remove_expired(100);
    assert_eq!(reaped, vec![TOKEN.to_string()]);
    assert!(!receiver.is_tracking(TOKEN));
    assert_eq!(receiver.active_transfer_count(), 0);

    for frame in rest {
        assert!(receiver.process_frame(100, &frame).unwrap().is_none());
    }
}

#[test]
fn remove_expired_skips_unexpired_transfers() {
    let mut receiver = OversizedTransferReceiver::with_policy(watchdog_policy(50));
    receiver.process_frame(0, &start_frame("tok-stale", 1, "sha256:abcd", 4, 1)).unwrap();
    receiver.process_frame(100, &start_frame(TOKEN, 1, "sha256:abcd", 4, 1)).unwrap();

    let reaped = receiver.remove_expired(100);
    assert_eq!(reaped, vec!["tok-stale".to_string()]);
    assert!(receiver.is_tracking(TOKEN), "fresh transfer must survive");
    assert!(!receiver.is_tracking("tok-stale"));
}

#[test]
fn remove_expired_zero_timeout_disables_watchdog() {
    let mut receiver = OversizedTransferReceiver::with_policy(watchdog_policy(0));
    receiver.process_frame(0, &start_frame(TOKEN, 1, "sha256:abcd", 4, 1)).unwrap();

    assert!(receiver.remove_expired(200).is_empty());
    assert!(receiver.is_tracking(TOKEN));
}

#[test]
fn reaped_token_is_readmittable_as_fresh_transfer() {
    let mut receiver = OversizedTransferReceiver::with_policy(watchdog_policy(50));
    let message = sample_response(7, "again");
    let mut first = build(&message, 4).into_ordered();
    first.truncate(2);
    for frame in &first {
        receiver.process_frame(0, frame).unwrap();
    }

    assert_eq!(receiver.remove_expired(100), vec![TOKEN.to_string()]);

    let reconstructed = run_to_completion(&mut receiver, build(&message, 4), 100);
    assert_eq!(value_of(&reconstructed), value_of(&message));
    assert!(!receiver.is_tracking(TOKEN), "completed transfer is released");
}

#[test]
fn is_tracking_reflects_transfer_lifecycle() {
    let mut receiver = OversizedTransferReceiver::new();
    assert!(!receiver.is_tracking(TOKEN));

    let ordered = build(&sample_response(1, "lifecycle"), 4).into_ordered();
    let (end, mid) = ordered.split_last().expect("frames are never empty");

    for frame in mid {
        receiver.process_frame(0, frame).unwrap();
        assert!(receiver.is_tracking(TOKEN), "tracked while in flight");
    }
    receiver.process_frame(0, end).unwrap().expect("end frame completes the transfer");
    assert!(!receiver.is_tracking(TOKEN), "released after completion");
}

// The sender.

fn frame_type(n: &JsonRpcNotification) -> String {
    at(cvm(n), "frameType").as_str().unwrap().to_string()
}

fn sample_frames(token: &str, needs_accept: bool) -> BuiltOversizedFrames {
    let payload = "x".repeat(50);
    let options = OversizedSenderOptions::new(token)
        .with_chunk_size(8)
        .with_accept_handshake(needs_accept);
    build_oversized_frames(&payload, &options).unwrap()
}

/// Runs a transfer, answering the wait for the `accept` as told. Each publication gets a number;
/// returned are the log and the number of the last one.
fn drive(
    mut sender: OversizedSender,
    accept: Option<SendEvent>,
) -> (Vec<JsonRpcNotification>, Result<usize, OversizedTransferError>) {
    let mut log = Vec::new();
    loop {
        match sender.next_action() {
            SendAction::Publish(n) => {
                log.push(n);
                sender.on_event(SendEvent::Published);
            }
            SendAction::AwaitAccept => sender.on_event(accept.expect("no accept is awaited")),
            SendAction::Fail(e) => return (log, Err(e)),
            SendAction::Done => {
                let n = log.len();
                return (log, Ok(n));
            }
        }
    }
}

#[test]
fn publishes_frames_in_canonical_order_and_returns_end_id() {
    let frames = sample_frames("tok", false);
    let expected_count = frames.frame_count();

    let (log, end) = drive(OversizedSender::new(frames, false, false), None);
    assert_eq!(log.len(), expected_count);
    assert!(expected_count > 2, "payload should span multiple chunks");

    assert_eq!(frame_type(&log[0]), "start");
    assert_eq!(frame_type(log.last().unwrap()), "end");
    for mid in &log[1..log.len() - 1] {
        assert_eq!(frame_type(mid), "chunk");
    }
    assert_eq!(end.unwrap(), expected_count);
}

#[test]
fn accept_is_awaited_and_satisfied_when_needed() {
    let frames = sample_frames("tok", true);
    let expected_count = frames.frame_count();

    let (log, end) = drive(OversizedSender::new(frames, true, true), Some(SendEvent::Accepted));
    assert_eq!(log.len(), expected_count);
    assert_eq!(frame_type(&log[0]), "start");
    assert_eq!(frame_type(log.last().unwrap()), "end");
    assert_eq!(end.unwrap(), expected_count);
}

#[test]
fn accept_is_not_awaited_when_not_needed() {
    let frames = sample_frames("tok", false);
    let (_, result) = drive(OversizedSender::new(frames, false, true), None);
    assert!(result.is_ok());
}

#[test]
fn missed_accept_returns_abort() {
    let frames = sample_frames("tok", true);
    let (log, result) =
        drive(OversizedSender::new(frames, true, true), Some(SendEvent::AcceptMissed));
    match result {
        Err(OversizedTransferError::Abort { token, .. }) => assert_eq!(token, "tok"),
        other => panic!("expected abort error, got {other:?}"),
    }
    assert_eq!(log.len(), 1);
}

#[test]
fn an_accept_that_nobody_listens_for_is_missed() {
    let frames = sample_frames("tok", true);
    let (log, result) = drive(OversizedSender::new(frames, true, false), None);
    assert_eq!(
        result,
        Err(OversizedTransferError::Abort {
            token: "tok".to_string(),
            reason: Some("no accept waiter registered".to_string()),
        })
    );
    assert_eq!(log.len(), 1);
}

// Sizing, with real events.

fn to_value(j: &Json) -> Value {
    match j {
        Json::Null => Value::Null,
        Json::Bool(b) => Value::Bool(*b),
        Json::Number(Number::Unsigned(u)) => Value::from(*u),
        Json::Number(Number::Signed(i)) => Value::from(*i),
        Json::Number(Number::Fraction(f)) => serde_json::from_str(&f.text).unwrap(),
        Json::Text(s) => Value::String(s.clone()),
        Json::Array(items) => Value::Array(items.iter().map(to_value).collect()),
        Json::Object(members) => {
            Value::Object(members.iter().map(|(k, v)| (k.clone(), to_value(v))).collect())
        }
    }
}

fn measure(n: &JsonRpcNotification, recipient: PublicKey, encrypted: bool) -> Option<usize> {
    let keys = Keys::generate();
    let mut message = serde_json::Map::new();
    message.insert("jsonrpc".to_string(), Value::from(n.jsonrpc.clone()));
    message.insert("method".to_string(), Value::from(n.method.clone()));
    message.insert("params".to_string(), to_value(params(n)));
    let content = Value::Object(message).to_string();
    let event = EventBuilder::new(Kind::Custom(25910), content)
        .tag(Tag::public_key(recipient))
        .sign_with_keys(&keys)
        .ok()?;
    if !encrypted {
        return Some(event.as_json().len());
    }
    let sealed = nip44::encrypt(
        keys.secret_key(),
        &recipient,
        event.as_json(),
        nip44::Version::V2,
    )
    .ok()?;
    let wrap = EventBuilder::new(Kind::Custom(1059), sealed)
        .tag(Tag::public_key(recipient))
        .sign_with_keys(&keys)
        .ok()?;
    Some(wrap.as_json().len())
}

fn resolve(desired: usize, recipient: PublicKey, encrypted: bool, limit: usize) -> usize {
    let mut search = ChunkSizeSearch::new(desired);
    while let Some(size) = search.probe_size() {
        search.record(fits(measure(&probe_frame(size), recipient, encrypted), limit));
    }
    search.best()
}

#[test]
fn measure_grows_with_data_length() {
    let recipient = Keys::generate().public_key();
    let small = measure(&chunk_frame("tok", 2, &"x".repeat(10)), recipient, false).unwrap();
    let large = measure(&chunk_frame("tok", 2, &"x".repeat(1000)), recipient, false).unwrap();
    assert!(large > small, "larger data must yield a larger event");
    assert!(small > 0);
}

#[test]
fn resolve_never_exceeds_desired_and_is_at_least_one() {
    let recipient = Keys::generate().public_key();
    let clamped = resolve(5000, recipient, false, 10);
    assert_eq!(clamped, 1, "an unsatisfiable ceiling must still return 1");

    let capped = resolve(8, recipient, false, 10_000_000);
    assert_eq!(capped, 8, "a generous ceiling must cap at `desired`");
}

#[test]
fn resolve_is_monotonic_in_budget() {
    let recipient = Keys::generate().public_key();
    let small_budget = resolve(48_000, recipient, false, 4_000);
    let large_budget = resolve(48_000, recipient, false, 16_000);
    assert!(large_budget >= small_budget);
}

#[test]
fn encrypted_frames_force_smaller_chunks_than_plaintext() {
    let recipient = Keys::generate().public_key();
    let plain = resolve(48_000, recipient, false, 8_000);
    let encrypted = resolve(48_000, recipient, true, 8_000);
    assert!(encrypted < plain);
}

#[test]
fn the_search_finds_the_largest_size_that_fits() {
    for limit in [1usize, 2, 7, 63, 64, 99, 100, 150] {
        let mut search = ChunkSizeSearch::new(100);
        while let Some(size) = search.probe_size() {
            search.record(size <= limit);
        }
        assert_eq!(search.best(), limit.min(100));
    }
    let mut search = ChunkSizeSearch::new(0);
    while let Some(size) = search.probe_size() {
        assert_eq!(size, 1);
        search.record(false);
    }
    assert_eq!(search.best(), 1);
}

#[test]
fn messages_are_sized_up_against_the_threshold() {
    assert_eq!(size_up(false, 1_000_000, 10), SizeVerdict::Single);
    assert_eq!(size_up(true, 10, 10), SizeVerdict::Oversized);
    assert_eq!(size_up(true, 9, 10), SizeVerdict::Measure);
    assert!(!needs_chunks(Some(10), 10));
    assert!(needs_chunks(Some(11), 10));
    assert!(needs_chunks(None, 10));
    assert!(fits(Some(10), 10));
    assert!(!fits(Some(11), 10));
    assert!(!fits(None, 10));
}

// The codec.

#[test]
fn the_digest_is_sha256_of_the_text() {
    assert_eq!(
        sha256_digest("abc"),
        "sha256:ba7816bf8f01cfea414140de5dae2223b00361a396177a9cb410ff61f20015ad"
    );
    assert_eq!(
        sha256_digest(""),
        "sha256:e3b0c44298fc1c149afbf4c8996fb92427ae41e4649b934ca495991b7852b855"
    );
}

#[test]
fn texts_are_split_at_character_boundaries() {
    assert_eq!(utf8_byte_len("aé日🚀"), 10);
    assert_eq!(split_string_by_byte_size("abcdefg", 3), vec!["abc", "def", "g"]);
    assert_eq!(split_string_by_byte_size("aé日🚀", 3), vec!["aé", "日", "🚀"]);
    assert_eq!(split_string_by_byte_size("", 3), Vec::<String>::new());
    assert_eq!(split_string_by_byte_size("日本語テキスト", 7).concat(), "日本語テキスト");
}

#[test]
fn frames_take_the_progress_slots_in_order() {
    let slots = |handshake: bool| -> Vec<u64> {
        let opts = OversizedSenderOptions::new(TOKEN)
            .with_chunk_size(2)
            .with_accept_handshake(handshake);
        build_oversized_frames("abcde", &opts)
            .unwrap()
            .into_ordered()
            .iter()
            .map(|n| at(params(n), "progress").as_u64().unwrap())
            .collect()
    };
    assert_eq!(slots(false), vec![1, 2, 3, 4, 5]);
    assert_eq!(slots(true), vec![1, 3, 4, 5, 6]);
}

#[test]
fn the_start_frame_declares_the_payload() {
    let frames = build("héllo", 2);
    assert_eq!(
        OversizedFrame::from_cvm_value(cvm(&frames.start)),
        Some(OversizedFrame::Start {
            completion_mode: CompletionMode::Render,
            digest: sha256_digest("héllo"),
            total_bytes: 6,
            total_chunks: 4,
        })
    );
    assert_eq!(frames.chunks.len(), 4);
}

#[test]
fn chunks_of_no_bytes_are_refused() {
    let opts = OversizedSenderOptions::new(TOKEN).with_chunk_size(0);
    assert!(matches!(
        build_oversized_frames("abc", &opts),
        Err(OversizedTransferError::Policy(_))
    ));
}

#[test]
fn a_payload_that_is_no_message_is_not_surfaced() {
    match surface_message(TOKEN, None) {
        Err(OversizedTransferError::Reassembly(e)) => assert!(e.contains(TOKEN)),
        other => panic!("expected a reassembly error, got {other:?}"),
    }
}

#[test]
fn transfers_do_not_touch_each_other() {
    let mut receiver = OversizedTransferReceiver::new();
    receiver.process_frame(0, &start_frame("a", 1, "sha256:ab", 2, 1)).unwrap();
    receiver.process_frame(0, &start_frame("b", 1, &sha256_digest("xy"), 2, 1)).unwrap();
    receiver.process_frame(0, &chunk_frame("b", 2, "xy")).unwrap();
    assert!(receiver.process_frame(0, &end_frame("a", 2)).is_err());
    assert!(!receiver.is_tracking("a"));
    assert_eq!(receiver.process_frame(0, &end_frame("b", 3)).unwrap(), Some("xy".to_string()));
}

#[test]
fn the_configuration_projects_into_the_policy() {
    let config = OversizedTransferConfig::default()
        .with_max_transfer_bytes(3)
        .with_max_transfer_chunks(5)
        .with_max_concurrent_transfers(7)
        .with_max_out_of_order_window(11)
        .with_max_out_of_order_chunks(13)
        .with_transfer_timeout_ms(17);
    assert_eq!(
        TransferPolicy::from(&config),
        TransferPolicy {
            max_transfer_bytes: 3,
            max_transfer_chunks: 5,
            max_concurrent_transfers: 7,
            max_out_of_order_window: 11,
            max_out_of_order_chunks: 13,
            transfer_timeout_ms: 17,
        }
    );
    assert!(OversizedTransferConfig::enabled().enabled);
    assert!(!OversizedTransferConfig::default().with_enabled(false).enabled);
}

#[test]
fn a_chunk_does_not_move_the_deadline() {
    let mut receiver = OversizedTransferReceiver::with_policy(watchdog_policy(50));
    receiver.process_frame(0, &start_frame(TOKEN, 1, "sha256:abcd", 8, 2)).unwrap();
    receiver.process_frame(40, &chunk_frame(TOKEN, 2, "abcd")).unwrap();
    assert!(receiver.remove_expired(50).is_empty());
    assert_eq!(receiver.remove_expired(51), vec![TOKEN.to_string()]);
}

#[test]
fn chunks_may_arrive_in_any_order_and_twice() {
    let message = sample_response(3, &"w".repeat(50));
    let frames = build(&message, 9);
    let last = frames.chunks.len() - 1;
    assert!(last >= 3);
    let mut receiver = OversizedTransferReceiver::with_policy(TransferPolicy {
        max_out_of_order_window: 100,
        max_out_of_order_chunks: 100,
        ..Default::default()
    });
    receiver.process_frame(0, &frames.start).unwrap();
    receiver.process_frame(0, &frames.chunks[0]).unwrap();
    for i in (1..=last).rev() {
        receiver.process_frame(0, &frames.chunks[i]).unwrap();
        receiver.process_frame(0, &frames.chunks[i]).unwrap();
    }
    assert_eq!(receiver.process_frame(0, &frames.end).unwrap(), Some(message));
}

#[test]
fn the_order_of_arrival_does_not_change_the_answer() {
    let answer = |order: &[(u64, &str)], total_chunks: u64, end: u64| {
        let mut receiver = OversizedTransferReceiver::new();
        receiver
            .process_frame(0, &start_frame(TOKEN, 1, "sha256:abcd", 6, total_chunks))
            .unwrap();
        for (slot, data) in order {
            assert_eq!(receiver.process_frame(0, &chunk_frame(TOKEN, *slot, data)), Ok(None));
        }
        receiver.process_frame(0, &end_frame(TOKEN, end))
    };
    let in_order = [(2, "ab"), (3, "cd"), (4, "ef")];
    let shuffled = [(2, "ab"), (4, "ef"), (4, "ef"), (3, "cd"), (2, "ab")];
    for (total_chunks, end) in [(3, 5), (4, 5), (3, 4)] {
        let expected = answer(&in_order, total_chunks, end);
        assert!(expected.is_err());
        assert_eq!(answer(&shuffled, total_chunks, end), expected);
    }
}
