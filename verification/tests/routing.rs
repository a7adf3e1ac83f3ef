use serde_json::Value;
use threadline::errors::ThreadlineError;
use threadline::models::RouteProfile;
use threadline::registry::RegistryAcquireError;
use threadline::responses::downstream::{
    parse_downstream_request, parse_downstream_request_with_metadata, DownstreamRequestMetadata,
    DownstreamResponsesRequest,
};
use threadline::responses::route::{
    continuation_check, first_send_result, map_registry_error, map_send_error, plan_route,
    prepare_retained_request, request_class_label, retained_session_conflict_reroute_reason,
    rewrite_stale_continuation_first_send_error, route_after_refusal, turn_state_after_connect,
    RoutePlan, TransientRouteKind,
};
use threadline::ws_pump::{
    InboundBufferOverflow, InboundBufferOverflowCause, UpstreamCloseMetadata,
    UpstreamTerminalState, UpstreamWebSocketError,
};

fn document(text: &str) -> Value {
    serde_json::from_str(text).expect("document")
}

fn request(text: &str) -> DownstreamResponsesRequest {
    parse_downstream_request(document(text)).expect("request")
}

fn closed() -> UpstreamTerminalState {
    UpstreamTerminalState::Closed(UpstreamCloseMetadata {
        code: None,
        reason: None,
        error: None,
    })
}

fn overflowed() -> UpstreamTerminalState {
    UpstreamTerminalState::InboundBufferOverflow(InboundBufferOverflow {
        cause: InboundBufferOverflowCause::MessageCount,
        queued_messages: 1,
        queued_bytes: 1,
        incoming_bytes: 1,
        max_messages: 1,
        max_bytes: 1,
    })
}

const SUMMARY_REQUEST: &str = r#"{"model": "threadline-main-gpt-5.5", "previous_response_id": "resp_1", "context_management": {"type": "compaction"}, "tools": [{"name": "search"}, {"name": "threadline_echo"}], "input": [{"type": "message", "role": "system", "content": [{"type": "input_text", "text": "The conversation has grown too large for the context window and must be compacted now. Your ONLY task right now is to produce a comprehensive summary. Output your summary wrapped in <summary> and </summary> tags"}]}]}"#;

#[test]
fn stale_continuation_first_send_rewrites_closed_upstream_to_previous_response_not_found() {
    let rewritten =
        rewrite_stale_continuation_first_send_error(ThreadlineError::UpstreamWebSocketClosed);

    assert!(matches!(
        rewritten,
        ThreadlineError::PreviousResponseNotFound
    ));
}

#[test]
fn stale_continuation_first_send_preserves_non_transport_errors() {
    let preserved =
        rewrite_stale_continuation_first_send_error(ThreadlineError::InvalidResponsesRequest);

    assert!(matches!(
        preserved,
        ThreadlineError::InvalidResponsesRequest
    ));
}

#[test]
fn unknown_models_and_unsupported_reasoning_are_refused() {
    assert!(matches!(
        plan_route(request(r#"{"model": "nope"}"#), RouteProfile::Main, false),
        Err(ThreadlineError::InvalidModel)
    ));
    assert!(matches!(
        plan_route(
            request(r#"{"model": "threadline-main-gpt-5.5"}"#),
            RouteProfile::Utility,
            false
        ),
        Err(ThreadlineError::InvalidModel)
    ));
    assert!(matches!(
        plan_route(
            request(r#"{"model": "gpt-5.5", "reasoning": {"context": "all_turns"}}"#),
            RouteProfile::Main,
            false
        ),
        Err(ThreadlineError::UnsupportedReasoningContext)
    ));
}

#[test]
fn primary_turns_go_to_a_retained_session() {
    let plan = plan_route(
        request(
            r#"{"model": "threadline-main-gpt-5.5", "previous_response_id": "resp_1", "context_management": {}, "input": "hi"}"#,
        ),
        RouteProfile::Main,
        true,
    )
    .expect("route");
    let (previous, request) = match plan {
        RoutePlan::Retained {
            previous_response_id,
            request,
        } => (previous_response_id, request),
        other => panic!("unexpected plan: {other:?}"),
    };
    assert_eq!(previous.as_deref(), Some("resp_1"));
    assert_eq!(request["model"], "gpt-5.5");
    assert!(request.get("reasoning").is_none());

    let prepared = prepare_retained_request(request, &previous);
    assert_eq!(prepared["previous_response_id"], "resp_1");
    assert!(prepared.get("context_management").is_none());
    assert_eq!(prepared["tools"].as_array().map(Vec::len), Some(6));
}

#[test]
fn reasoning_is_kept_only_where_it_is_switched_on() {
    let sol = r#"{"model": "threadline-main-gpt-5.6-sol", "reasoning": {"effort": "high"}}"#;
    for (body, enabled, expected) in [
        (
            sol,
            true,
            Some(document(r#"{"effort": "high", "context": "all_turns"}"#)),
        ),
        (sol, false, Some(document(r#"{"effort": "high"}"#))),
        (
            r#"{"model": "threadline-main-gpt-5.6-sol"}"#,
            true,
            Some(document(r#"{"context": "all_turns"}"#)),
        ),
        (
            r#"{"model": "threadline-main-gpt-5.6-sol", "reasoning": null}"#,
            true,
            Some(document(r#"{"context": "all_turns"}"#)),
        ),
        (
            r#"{"model": "threadline-main-gpt-5.6-sol", "reasoning": "odd"}"#,
            true,
            Some(document(r#""odd""#)),
        ),
        (r#"{"model": "gpt-5.6-sol"}"#, true, None),
    ] {
        match plan_route(request(body), RouteProfile::Main, enabled).expect("route") {
            RoutePlan::Retained { request, .. } => {
                assert_eq!(request.get("reasoning").cloned(), expected)
            }
            other => panic!("unexpected plan: {other:?}"),
        }
    }
}

#[test]
fn summaries_have_a_connection_of_their_own() {
    let plan = plan_route(request(SUMMARY_REQUEST), RouteProfile::Main, false).expect("route");
    match plan {
        RoutePlan::Transient { kind, request } => {
            assert_eq!(kind, TransientRouteKind::AuxiliarySummary);
            assert_eq!(kind.label(), "auxiliary_summary");
            assert!(request.get("context_management").is_none());
            assert!(request.get("previous_response_id").is_none());
            assert_eq!(request["tools"], document(r#"[{"name": "search"}]"#));
        }
        other => panic!("unexpected plan: {other:?}"),
    }
}

#[test]
fn utility_turns_are_stateless() {
    let body = r#"{"model": "threadline-utility-gpt-5.4-mini", "previous_response_id": "resp_1", "tools": [{"name": "threadline_echo"}], "input": "hi"}"#;
    match plan_route(request(body), RouteProfile::Utility, false).expect("route") {
        RoutePlan::Transient { kind, request } => {
            assert_eq!(kind, TransientRouteKind::Utility);
            assert_eq!(kind.label(), "utility");
            assert_eq!(request["model"], "gpt-5.4-mini");
            assert_eq!(request["tools"], document("[]"));
            assert!(request.get("previous_response_id").is_none());
        }
        other => panic!("unexpected plan: {other:?}"),
    }
}

#[test]
fn only_summaries_go_around_a_busy_session() {
    let ordinary = request(r#"{"model": "threadline-main-gpt-5.5", "input": "hi"}"#);
    assert_eq!(request_class_label(ordinary.classification), "normal");
    assert_eq!(
        retained_session_conflict_reroute_reason(&ordinary.routing_diagnostics, &ordinary.payload),
        None
    );
    assert!(matches!(
        route_after_refusal(
            RegistryAcquireError::RetainedSessionConflict,
            &ordinary.routing_diagnostics,
            ordinary.payload.clone()
        ),
        Err(ThreadlineError::RetainedSessionConflict)
    ));

    let compaction = parse_downstream_request_with_metadata(
        document(r#"{"model": "threadline-main-gpt-5.5", "context_management": {}, "input": "hi"}"#),
        DownstreamRequestMetadata::from_interaction_type_header_bytes(Some(
            b"conversation-compaction",
        )),
    )
    .expect("request");
    assert_eq!(
        retained_session_conflict_reroute_reason(
            &compaction.routing_diagnostics,
            &compaction.payload
        ),
        Some("interaction_type_compaction")
    );
    match route_after_refusal(
        RegistryAcquireError::RetainedSessionConflict,
        &compaction.routing_diagnostics,
        compaction.payload.clone(),
    ) {
        Ok(RoutePlan::Transient { kind, request }) => {
            assert_eq!(kind, TransientRouteKind::AuxiliarySummary);
            assert!(request.get("context_management").is_none());
        }
        other => panic!("unexpected plan: {other:?}"),
    }
    assert!(matches!(
        route_after_refusal(
            RegistryAcquireError::PreviousResponseNotFound,
            &compaction.routing_diagnostics,
            compaction.payload
        ),
        Err(ThreadlineError::PreviousResponseNotFound)
    ));

    let summary = request(SUMMARY_REQUEST);
    assert_eq!(request_class_label(summary.classification), "auxiliary_summary");
    assert_eq!(
        retained_session_conflict_reroute_reason(&summary.routing_diagnostics, &summary.payload),
        Some("summary_fingerprint")
    );
}

#[test]
fn refusals_of_the_registry_keep_their_meaning() {
    assert!(matches!(
        map_registry_error(RegistryAcquireError::RetainedSessionCapacityExceeded),
        ThreadlineError::RetainedSessionCapacityExceeded
    ));
    assert!(matches!(
        map_registry_error(RegistryAcquireError::UpstreamInboundBufferOverflow),
        ThreadlineError::UpstreamInboundBufferOverflow
    ));
    assert!(matches!(
        map_send_error(UpstreamWebSocketError::LivenessTimeout),
        ThreadlineError::UpstreamWebSocketClosed
    ));
}

#[test]
fn continuation_needs_an_open_connection() {
    let open = UpstreamTerminalState::Open;
    assert!(continuation_check(true, &open).is_ok());
    for (attached, state) in [(false, &open), (true, &closed())] {
        assert!(matches!(
            continuation_check(attached, state),
            Err(ThreadlineError::PreviousResponseNotFound)
        ));
    }
    assert!(matches!(
        continuation_check(true, &overflowed()),
        Err(ThreadlineError::UpstreamInboundBufferOverflow)
    ));

    assert!(first_send_result(false, Ok(()), &closed()).is_ok());
    assert!(matches!(
        first_send_result(true, Ok(()), &closed()),
        Err(ThreadlineError::PreviousResponseNotFound)
    ));
    assert!(matches!(
        first_send_result(
            true,
            Err(UpstreamWebSocketError::OutboundQueueClosed),
            &closed()
        ),
        Err(ThreadlineError::PreviousResponseNotFound)
    ));
    assert!(matches!(
        first_send_result(
            false,
            Err(UpstreamWebSocketError::OutboundQueueClosed),
            &closed()
        ),
        Err(ThreadlineError::UpstreamWebSocketClosed)
    ));
    assert!(matches!(
        first_send_result(
            true,
            Err(UpstreamWebSocketError::InboundBufferOverflow),
            &overflowed()
        ),
        Err(ThreadlineError::UpstreamInboundBufferOverflow)
    ));
}

#[test]
fn turn_state_outlives_a_reconnect() {
    let earlier = Some("old".to_string());
    assert_eq!(
        turn_state_after_connect(Some("new".to_string()), &earlier).as_deref(),
        Some("new")
    );
    assert_eq!(
        turn_state_after_connect(None, &earlier).as_deref(),
        Some("old")
    );
}
