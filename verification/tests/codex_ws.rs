use serde_json::Value;
use threadline::auth::{AuthSource, LoadedUpstreamAuth, RefreshBoundary};
use threadline::codex_ws::{
    apply_session_metadata, build_handshake_request, HandshakeBuildError,
    UpstreamSessionDescriptor, EXPECTED_CODEX_CLIENT_VERSION, RESPONSES_WEBSOCKETS_BETA_HEADER,
};
use uuid::Uuid;

fn document(text: &str) -> Value {
    serde_json::from_str(text).expect("document")
}

const TEST_INSTALLATION_ID: &str = "11111111-2222-4333-8444-555555555555";

fn test_auth() -> LoadedUpstreamAuth {
    LoadedUpstreamAuth {
        bearer_token: "top-secret-token".to_string(),
        source: AuthSource::CodexKeyring,
        refresh_boundary: RefreshBoundary::NotAvailable,
    }
}

#[test]
fn handshake_generates_required_headers_and_identifiers() {
    let handshake = build_handshake_request(
        "ws://localhost:9001/codex",
        &test_auth(),
        EXPECTED_CODEX_CLIENT_VERSION,
        TEST_INSTALLATION_ID,
        None,
    )
    .expect("handshake should build");
    let headers = handshake.request.headers();

    assert_eq!(
        handshake.request.uri().to_string(),
        "ws://localhost:9001/codex"
    );
    assert_eq!(headers["connection"], "Upgrade");
    assert_eq!(headers["upgrade"], "websocket");
    assert!(headers.get("sec-websocket-key").is_some());
    assert_eq!(headers["sec-websocket-version"], "13");
    assert_eq!(headers["authorization"], "Bearer top-secret-token");
    assert_eq!(headers["openai-beta"], RESPONSES_WEBSOCKETS_BETA_HEADER);
    assert_eq!(headers["originator"], "codex_vscode");
    assert_eq!(
        headers["user-agent"],
        format!(
            "codex_vscode/{EXPECTED_CODEX_CLIENT_VERSION} Threadline/{}",
            "0.1.0"
        )
    );
    assert_eq!(headers["version"], EXPECTED_CODEX_CLIENT_VERSION);
    assert_eq!(headers["x-codex-installation-id"], TEST_INSTALLATION_ID);
    Uuid::parse_str(headers["session-id"].to_str().unwrap()).expect("session id uuid");
    let thread_id = headers["thread-id"].to_str().expect("thread id header");
    Uuid::parse_str(thread_id).expect("thread id uuid");
    assert_eq!(
        headers["x-codex-window-id"],
        format!("{thread_id}:0")
    );
    Uuid::parse_str(headers["x-client-request-id"].to_str().unwrap()).expect("request id uuid");
    assert!(headers.get("x-codex-turn-state").is_none());
}

#[test]
fn handshake_reuses_supplied_session_context_and_turn_state() {
    let session = UpstreamSessionDescriptor {
        session_id: "session-123".to_string(),
        thread_id: "thread-456".to_string(),
        window_id: "thread-456:3".to_string(),
        turn_state: Some("turn-state-abc".to_string()),
    };

    let handshake = build_handshake_request(
        "wss://example.invalid/upstream",
        &test_auth(),
        EXPECTED_CODEX_CLIENT_VERSION,
        TEST_INSTALLATION_ID,
        Some(session.clone()),
    )
    .expect("handshake should build");
    let headers = handshake.request.headers();

    assert_eq!(headers["x-codex-installation-id"], TEST_INSTALLATION_ID);
    assert_eq!(headers["session-id"], session.session_id);
    assert_eq!(headers["thread-id"], session.thread_id);
    assert_eq!(headers["x-codex-window-id"], session.window_id);
    assert_eq!(headers["x-codex-turn-state"], "turn-state-abc");
    assert_ne!(headers["x-client-request-id"], "turn-state-abc");
}

#[test]
fn session_descriptor_uses_supplied_thread_and_window_generation() {
    let thread_id = "48a65359-981b-47c2-9612-e1c64ae07e22".to_string();
    let mut session = UpstreamSessionDescriptor::new(Some(thread_id.clone()));

    assert_eq!(session.thread_id, thread_id);
    assert_eq!(session.window_id, format!("{}:0", session.thread_id));
    Uuid::parse_str(&session.session_id).expect("session id uuid");

    session.set_window_generation(2);
    assert_eq!(session.window_id, format!("{}:2", session.thread_id));
}

#[test]
fn session_metadata_projects_identifiers_without_removing_other_metadata() {
    let session = UpstreamSessionDescriptor {
        session_id: "session-123".to_string(),
        thread_id: "48a65359-981b-47c2-9612-e1c64ae07e22".to_string(),
        window_id: "48a65359-981b-47c2-9612-e1c64ae07e22:0".to_string(),
        turn_state: None,
    };
    let mut payload = document(r#"{"client_metadata": {"downstream_key": "preserve"}}"#);

    apply_session_metadata(
        payload.as_object_mut().expect("payload object"),
        &session,
        TEST_INSTALLATION_ID,
    );

    assert_eq!(payload["client_metadata"]["downstream_key"], "preserve");
    assert_eq!(
        payload["client_metadata"]["x-codex-installation-id"],
        TEST_INSTALLATION_ID
    );
    assert_eq!(payload["client_metadata"]["session_id"], session.session_id);
    assert_eq!(payload["client_metadata"]["thread_id"], session.thread_id);
    assert_eq!(
        payload["client_metadata"]["x-codex-window-id"],
        session.window_id
    );
}

#[test]
fn session_metadata_replaces_non_object_client_metadata() {
    let session = UpstreamSessionDescriptor::new(None);
    let mut payload = document(r#"{"client_metadata": "invalid"}"#);

    apply_session_metadata(
        payload.as_object_mut().expect("payload object"),
        &session,
        TEST_INSTALLATION_ID,
    );

    assert!(payload["client_metadata"].is_object());
    assert_eq!(
        payload["client_metadata"]["x-codex-installation-id"],
        Value::String(TEST_INSTALLATION_ID.to_string())
    );
}

#[test]
fn handshake_rejects_invalid_upstream_url() {
    let error = build_handshake_request(
        "not a websocket url",
        &test_auth(),
        EXPECTED_CODEX_CLIENT_VERSION,
        TEST_INSTALLATION_ID,
        None,
    )
    .expect_err("invalid url should fail");

    assert!(matches!(error, HandshakeBuildError::RequestBuildFailed));
}

#[test]
fn handshake_has_exactly_its_headers() {
    let session = |turn_state: Option<&str>| UpstreamSessionDescriptor {
        session_id: "session-123".to_string(),
        thread_id: "thread-456".to_string(),
        window_id: "thread-456:3".to_string(),
        turn_state: turn_state.map(ToString::to_string),
    };
    let names = |turn_state: Option<&str>| {
        let handshake = build_handshake_request(
            "ws://localhost:9001/codex",
            &test_auth(),
            EXPECTED_CODEX_CLIENT_VERSION,
            TEST_INSTALLATION_ID,
            Some(session(turn_state)),
        )
        .expect("handshake should build");
        assert_eq!(handshake.session, session(turn_state));
        let mut names: Vec<String> = handshake
            .request
            .headers()
            .keys()
            .map(|name| name.as_str().to_string())
            .collect();
        names.sort();
        names
    };
    let mut expected = vec![
        "authorization",
        "connection",
        "host",
        "openai-beta",
        "originator",
        "sec-websocket-key",
        "sec-websocket-version",
        "session-id",
        "thread-id",
        "upgrade",
        "user-agent",
        "version",
        "x-client-request-id",
        "x-codex-installation-id",
        "x-codex-window-id",
    ];
    assert_eq!(names(None), expected);
    expected.insert(14, "x-codex-turn-state");
    assert_eq!(names(Some("state")), expected);
}

#[test]
fn header_texts_are_checked() {
    for (token, accepted) in [
        ("plain", true),
        ("tab\tand \u{e9}", true),
        ("line\nfeed", false),
        ("\u{7f}", false),
    ] {
        let auth = LoadedUpstreamAuth {
            bearer_token: token.to_string(),
            ..test_auth()
        };
        let handshake = build_handshake_request(
            "ws://localhost:9001/codex",
            &auth,
            EXPECTED_CODEX_CLIENT_VERSION,
            TEST_INSTALLATION_ID,
            None,
        );
        assert_eq!(handshake.is_ok(), accepted);
    }
}
