use threadline::codex_ws::UpstreamSessionDescriptor;
use threadline::errors::ThreadlineError;
use threadline::http::{
    health_payload, map_upstream_connect_error, model_list_payload, upstream_connect_error_kind,
    upstream_url, ConnectFailureKind, UpstreamConnectFailure, DEFAULT_UPSTREAM_URL,
};
use threadline::identity::{
    identity_from, resolve_identity, state_directory, transient_identity, StateDirectory,
};
use threadline::models::RouteProfile;
use threadline::responses::downstream::{DownstreamInteractionType, DownstreamRequestMetadata};

#[test]
fn upstream_http_connect_error_maps_to_status_error() {
    let mapped = map_upstream_connect_error(UpstreamConnectFailure::Rejected { status: 401 });

    assert!(matches!(
        mapped,
        ThreadlineError::UpstreamWebSocketHandshakeRejected { status } if status == 401
    ));
}

#[test]
fn upstream_non_http_connect_error_remains_bad_gateway_failure() {
    let mapped = map_upstream_connect_error(UpstreamConnectFailure::Failed(ConnectFailureKind::Io));

    assert!(matches!(
        mapped,
        ThreadlineError::UpstreamWebSocketConnectFailed
    ));
    assert_eq!(mapped.status_code(), 502);
}

#[test]
fn upstream_connect_error_kind_uses_coarse_io_bucket() {
    assert_eq!(upstream_connect_error_kind(ConnectFailureKind::Io), "io");
}

#[test]
fn upstream_connect_error_kind_distinguishes_closed_connections() {
    assert_eq!(
        upstream_connect_error_kind(ConnectFailureKind::ConnectionClosed),
        "connection_closed"
    );
}

#[test]
fn upstream_url_uses_default_when_env_is_unset() {
    assert_eq!(upstream_url(None), DEFAULT_UPSTREAM_URL);
    assert_eq!(
        DEFAULT_UPSTREAM_URL,
        "wss://chatgpt.com/backend-api/codex/responses"
    );
}

#[test]
fn upstream_url_prefers_env_override_when_present() {
    assert_eq!(
        upstream_url(Some(
            "wss://example.invalid/backend-api/codex/responses".to_string()
        )),
        "wss://example.invalid/backend-api/codex/responses"
    );
}

#[test]
fn interaction_type_header_uses_first_duplicate_value() {
    let headers = vec![
        b"conversation-start".to_vec(),
        b"conversation-compaction".to_vec(),
    ];
    let metadata = DownstreamRequestMetadata::from_interaction_type_headers(&headers);

    assert_eq!(
        metadata.interaction_type(),
        DownstreamInteractionType::Other
    );

    let headers = vec![
        b" conversation-compaction ".to_vec(),
        b"conversation-start".to_vec(),
    ];
    let metadata = DownstreamRequestMetadata::from_interaction_type_headers(&headers);

    assert_eq!(
        metadata.interaction_type(),
        DownstreamInteractionType::ConversationCompaction
    );
    assert_eq!(
        DownstreamRequestMetadata::from_interaction_type_headers(&Vec::new()).interaction_type(),
        DownstreamInteractionType::Missing
    );
}

#[test]
fn missing_and_odd_interaction_headers_are_told_apart() {
    for (header, expected) in [
        (None, DownstreamInteractionType::Missing),
        (Some(&b""[..]), DownstreamInteractionType::Other),
        (Some(&b"  "[..]), DownstreamInteractionType::Other),
        (Some(&b"\xff"[..]), DownstreamInteractionType::Other),
        (
            Some(&b"conversation-compactiom"[..]),
            DownstreamInteractionType::Other,
        ),
        (
            Some(&b"\tconversation-compaction"[..]),
            DownstreamInteractionType::ConversationCompaction,
        ),
    ] {
        assert_eq!(
            DownstreamRequestMetadata::from_interaction_type_header_bytes(header)
                .interaction_type(),
            expected
        );
    }
}

#[test]
fn health_and_models_answer_in_full() {
    let health = health_payload();
    assert_eq!(health.status, "ok");
    assert_eq!(health.service, "threadline");

    let list = model_list_payload(RouteProfile::Utility);
    assert_eq!(list.object, "list");
    let ids: Vec<&str> = list.data.iter().map(|entry| entry.id.as_str()).collect();
    assert_eq!(
        ids,
        vec![
            "threadline-utility-gpt-5.4-mini",
            "threadline-utility-gpt-5.3-codex-spark",
        ]
    );
    for entry in &list.data {
        assert_eq!(entry.object, "model");
        assert_eq!(entry.created, 0);
        assert_eq!(entry.owned_by, "threadline");
    }
}

#[test]
fn installation_identity_is_generated_and_reused() {
    let first = resolve_identity("");
    assert!(first.is_new);
    let second = resolve_identity(&format!(" {}\n", first.installation_id));
    assert!(!second.is_new);

    assert_eq!(first.installation_id, second.installation_id);
    uuid::Uuid::parse_str(&first.installation_id).expect("installation identity uuid");
}

#[test]
fn invalid_installation_identity_is_replaced() {
    let resolved = resolve_identity("not-a-uuid");

    assert!(resolved.is_new);
    uuid::Uuid::parse_str(&resolved.installation_id).expect("replacement installation identity");
    assert_eq!(
        identity_from(None, "next".to_string()).installation_id,
        "next"
    );
    assert_eq!(
        identity_from(Some("written".to_string()), "next".to_string()).installation_id,
        "written"
    );
    assert_eq!(
        resolve_identity("{11111111-2222-4333-8444-55555555AAAA}").installation_id,
        "11111111-2222-4333-8444-55555555aaaa"
    );
    assert_ne!(transient_identity(), transient_identity());
}

#[test]
fn state_directory_prefers_the_explicit_home() {
    assert_eq!(
        state_directory(true, true, true),
        Some(StateDirectory::Explicit)
    );
    assert_eq!(
        state_directory(false, true, true),
        Some(StateDirectory::UserProfile)
    );
    assert_eq!(
        state_directory(false, false, true),
        Some(StateDirectory::Home)
    );
    assert_eq!(state_directory(false, false, false), None);
}

#[test]
fn blank_thread_ids_are_replaced() {
    let session = UpstreamSessionDescriptor::with_ids(
        Some(" \t".to_string()),
        "new-thread".to_string(),
        "session".to_string(),
    );
    assert_eq!(session.thread_id, "new-thread");
    assert_eq!(session.window_id, "new-thread:0");
    assert_eq!(session.session_id, "session");
    assert_eq!(session.turn_state, None);
}
