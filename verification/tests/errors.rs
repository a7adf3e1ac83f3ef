use serde_json::Value;
use threadline::errors::{handshake_rejection_text, ThreadlineError};

fn document(text: &str) -> Value {
    serde_json::from_str(text).expect("document")
}

#[test]
fn upstream_websocket_handshake_rejected_uses_upstream_status() {
    let error = ThreadlineError::UpstreamWebSocketHandshakeRejected {
        status: 403,
    };

    assert_eq!(error.status_code(), 403);

    let document = error.public_error_document();

    assert_eq!(
        document.error.code.as_str(),
        "upstream_websocket_handshake_rejected"
    );
    assert_eq!(
        document.error.message.as_str(),
        "The upstream Codex websocket handshake was rejected with HTTP 403 Forbidden."
    );
    assert_eq!(document.error.error_type.as_str(), "bad_gateway_error");
}

#[test]
fn upstream_websocket_handshake_rejected_propagates_exact_server_error_status() {
    let error = ThreadlineError::UpstreamWebSocketHandshakeRejected {
        status: 503,
    };

    assert_eq!(error.status_code(), 503);
    assert_eq!(
        error.public_error_document().error.message.as_str(),
        "The upstream Codex websocket handshake was rejected with HTTP 503 Service Unavailable."
    );
}

#[test]
fn invalid_server_configuration_maps_to_configuration_error_with_original_message() {
    let error = ThreadlineError::InvalidServerConfiguration(
        "--utility-port must differ from --port".to_string(),
    );

    assert_eq!(error.status_code(), 500);

    let document = error.public_error_document();

    assert_eq!(document.error.code.as_str(), "configuration_error");
    assert_eq!(
        document.error.message.as_str(),
        "--utility-port must differ from --port"
    );
    assert_eq!(document.error.error_type.as_str(), "configuration_error");
}

#[test]
fn unsupported_reasoning_context_maps_to_stable_invalid_request_error() {
    let error = ThreadlineError::UnsupportedReasoningContext;

    assert_eq!(error.status_code(), 400);

    let document = error.public_error_document();

    assert_eq!(
        document.error.code.as_str(),
        "unsupported_reasoning_context"
    );
    assert_eq!(
        document.error.message.as_str(),
        "reasoning.context=all_turns is not supported for this model. The model metadata has use_responses_lite=false."
    );
    assert_eq!(document.error.error_type.as_str(), "invalid_request_error");
}

#[test]
fn oversized_requests_and_overflows_have_fixed_documents() {
    let too_large = ThreadlineError::RequestBodyTooLarge;
    assert_eq!(too_large.status_code(), 413);
    assert_eq!(
        too_large.public_error_document().to_json().to_string(),
        r#"{"error":{"code":"request_body_too_large","message":"The /v1/responses request body exceeds the configured byte limit.","type":"invalid_request_error"}}"#
    );

    let overflow = ThreadlineError::UpstreamInboundBufferOverflow;
    assert_eq!(overflow.status_code(), 502);
    assert_eq!(
        overflow.public_error_document().to_json().to_string(),
        r#"{"error":{"code":"upstream_inbound_buffer_overflow","message":"The upstream websocket inbound buffer overflowed.","type":"server_error"}}"#
    );
}

#[test]
fn unknown_statuses_have_no_reason() {
    let error = ThreadlineError::UpstreamWebSocketHandshakeRejected { status: 599 };
    assert_eq!(error.status_code(), 599);
    assert_eq!(
        error.public_error().message,
        "The upstream Codex websocket handshake was rejected with HTTP 599."
    );
    assert_eq!(
        handshake_rejection_text(404, Some("Not Found")),
        "The upstream Codex websocket handshake was rejected with HTTP 404 Not Found."
    );
}

#[test]
fn only_lost_connections_can_be_replaced() {
    assert!(ThreadlineError::UpstreamWebSocketClosed.is_upstream_recoverable_close());
    assert!(ThreadlineError::UpstreamWebSocketConnectFailed.is_upstream_recoverable_close());
    assert!(!ThreadlineError::UpstreamInvalidJson.is_upstream_recoverable_close());
}
