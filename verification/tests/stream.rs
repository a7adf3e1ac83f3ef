use serde_json::Value;
use threadline::errors::ThreadlineError;
use threadline::responses::completed::CompletedSanitizationDiagnostics;
use threadline::responses::trace::no_observable_output_guard_diagnostics;
use threadline::responses::translation::{
    upstream_end_of, LeaseEffect, ResponseStream, StreamAction, UpstreamEnd,
};
use threadline::responses::visible::{response_output_text_delta_payload, VisibleTextSourceKey};
use threadline::tools::PendingInternalToolOutput;
use threadline::ws_pump::UpstreamWebSocketError;

fn document(text: &str) -> Value {
    serde_json::from_str(text).expect("document")
}

fn stream_with(previous_response_id: Option<&str>, guard: bool) -> ResponseStream {
    let request = document(r#"{"model": "gpt-test", "input": "hi"}"#)
        .as_object()
        .expect("object")
        .clone();
    ResponseStream::new(
        request,
        previous_response_id.map(ToString::to_string),
        true,
        true,
        guard,
        false,
    )
}

fn emitted(action: StreamAction) -> (String, LeaseEffect) {
    match action {
        StreamAction::Emit { chunk, lease } => (chunk, lease),
        other => panic!("chunk expected, got {other:?}"),
    }
}

fn payload(chunk: &str, event: &str) -> Value {
    let opening = format!("event: {event}\ndata: ");
    let body = chunk
        .strip_prefix(opening.as_str())
        .and_then(|rest| rest.strip_suffix("\n\n"))
        .unwrap_or_else(|| panic!("unexpected chunk: {chunk}"));
    document(body)
}

fn expect_end(stream: &mut ResponseStream) {
    let (chunk, lease) = emitted(stream.advance());
    assert_eq!(chunk, "data: [DONE]\n\n");
    assert!(matches!(lease, LeaseEffect::Keep));
    assert!(matches!(stream.advance(), StreamAction::Finish));
}

#[test]
fn answer_is_forwarded_and_completed_once() {
    let mut stream = stream_with(None, true);
    assert!(matches!(stream.advance(), StreamAction::Receive));
    let (chunk, lease) = emitted(stream.on_upstream_message(
        r#"{"type": "response.output_text.delta", "item_id": "m", "output_index": 0, "content_index": 0, "delta": "hello"}"#,
    ));
    assert_eq!(payload(&chunk, "response.output_text.delta")["delta"], "hello");
    assert!(matches!(lease, LeaseEffect::Keep));

    let completed = r#"{"type": "response.completed", "response": {"id": "resp_1", "output": []}}"#;
    assert!(matches!(
        stream.on_upstream_message(completed),
        StreamAction::Advance
    ));
    let (chunk, lease) = emitted(stream.advance());
    let event = payload(&chunk, "response.completed");
    assert_eq!(event["response"]["id"], "resp_1");
    assert_eq!(event["response"]["output"][0]["content"][0]["text"], "hello");
    assert!(matches!(
        lease,
        LeaseEffect::CompleteAndRelease(Some(id)) if id == "resp_1"
    ));
    expect_end(&mut stream);
}

#[test]
fn text_without_deltas_is_shown_before_the_completed_event() {
    let mut stream = stream_with(None, true);
    let completed = r#"{"type": "response.completed", "response": {"id": "resp_1", "output": [{"type": "message", "role": "assistant", "id": "m", "content": [{"type": "output_text", "text": "whole"}]}]}}"#;
    assert!(matches!(
        stream.on_upstream_message(completed),
        StreamAction::Advance
    ));
    let (chunk, _) = emitted(stream.advance());
    assert_eq!(payload(&chunk, "response.output_text.delta")["delta"], "whole");
    let (chunk, _) = emitted(stream.advance());
    payload(&chunk, "response.completed");
    expect_end(&mut stream);
}

#[test]
fn internal_tool_calls_become_a_followup() {
    let mut stream = stream_with(None, true);
    let added = r#"{"type": "response.output_item.added", "output_index": 0, "item": {"type": "function_call", "name": "threadline_echo", "call_id": "call-1"}}"#;
    assert!(matches!(
        stream.on_upstream_message(added),
        StreamAction::Advance
    ));
    let arguments =
        r#"{"type": "response.function_call_arguments.delta", "output_index": 0, "delta": "{"}"#;
    assert!(matches!(
        stream.on_upstream_message(arguments),
        StreamAction::Advance
    ));
    let done = r#"{"type": "response.output_item.done", "output_index": 0, "item": {"type": "function_call", "name": "threadline_echo", "call_id": "call-1", "arguments": "{\"value\":\"hi\"}"}}"#;
    let (call, event) = match stream.on_upstream_message(done) {
        StreamAction::RunTool { call, event } => (call, event),
        other => panic!("tool call expected, got {other:?}"),
    };
    assert_eq!(call.call_id, "call-1");
    assert_eq!(call.arguments["value"], "hi");
    let output = PendingInternalToolOutput::new("call-1".to_string(), "hi".to_string());
    assert!(matches!(
        stream.on_tool_result(&event, Ok(output)),
        StreamAction::Advance
    ));
    let text = r#"{"type": "response.output_text.delta", "delta": "working"}"#;
    assert!(matches!(
        stream.on_upstream_message(text),
        StreamAction::Advance
    ));

    let completed = r#"{"type": "response.completed", "response": {"id": "resp_mid"}}"#;
    let (text, response_id, event) = match stream.on_upstream_message(completed) {
        StreamAction::SendFollowup {
            text,
            response_id,
            event,
        } => (text, response_id, event),
        other => panic!("followup expected, got {other:?}"),
    };
    assert_eq!(response_id, "resp_mid");
    let sent = document(&text);
    assert_eq!(sent["previous_response_id"], "resp_mid");
    assert_eq!(
        sent["input"],
        document(r#"[{"type": "function_call_output", "call_id": "call-1", "output": "hi"}]"#)
    );
    assert!(matches!(
        stream.on_followup_sent(&event, &response_id, Ok(())),
        StreamAction::Advance
    ));
    assert!(matches!(stream.advance(), StreamAction::Receive));
}

#[test]
fn second_output_for_one_call_fails_the_stream() {
    let mut stream = stream_with(None, true);
    let event = document(r#"{"type": "response.output_item.done"}"#);
    let output = || PendingInternalToolOutput::new("call-1".to_string(), "hi".to_string());
    assert!(matches!(
        stream.on_tool_result(&event, Ok(output())),
        StreamAction::Advance
    ));
    let (chunk, lease) = emitted(stream.on_tool_result(&event, Ok(output())));
    assert_eq!(
        payload(&chunk, "response.failed")["response"]["error"]["code"],
        "internal_tool_failed"
    );
    assert!(matches!(lease, LeaseEffect::TerminateAndRelease));
    expect_end(&mut stream);
}

#[test]
fn failed_followup_fails_the_stream() {
    let mut stream = stream_with(None, true);
    let event = document(r#"{"type": "response.completed", "response": {"id": "resp_mid"}}"#);
    let (chunk, _) = emitted(stream.on_followup_sent(
        &event,
        "resp_mid",
        Err(ThreadlineError::UpstreamWebSocketClosed),
    ));
    let failure = payload(&chunk, "response.failed");
    assert_eq!(failure["response"]["id"], "resp_mid");
    assert_eq!(
        failure["response"]["error"]["code"],
        "upstream_websocket_closed"
    );
    expect_end(&mut stream);
}

#[test]
fn lost_upstream_is_replaced_at_most_once() {
    let mut stream = stream_with(Some("resp_0"), true);
    assert!(!stream.begin_reconnect(UpstreamEnd::InboundBufferOverflow));
    assert!(stream.begin_reconnect(UpstreamEnd::Closed));
    assert!(!stream.begin_reconnect(UpstreamEnd::Closed));
    let (chunk, lease) = emitted(stream.on_upstream_end(UpstreamEnd::Closed));
    assert_eq!(
        payload(&chunk, "response.failed")["response"]["error"]["code"],
        "upstream_websocket_closed"
    );
    assert!(matches!(lease, LeaseEffect::RecoverAndRelease));
    expect_end(&mut stream);

    assert!(!stream_with(None, true).begin_reconnect(UpstreamEnd::Closed));
    let mut started = stream_with(Some("resp_0"), true);
    started.on_upstream_message(r#"{"type": "response.created"}"#);
    assert!(!started.begin_reconnect(UpstreamEnd::Closed));
}

#[test]
fn only_an_overflow_is_no_close() {
    assert_eq!(
        upstream_end_of(UpstreamWebSocketError::InboundBufferOverflow),
        UpstreamEnd::InboundBufferOverflow
    );
    assert_eq!(
        upstream_end_of(UpstreamWebSocketError::LivenessTimeout),
        UpstreamEnd::Closed
    );
    assert_eq!(
        upstream_end_of(UpstreamWebSocketError::OutboundQueueClosed),
        UpstreamEnd::Closed
    );
}

#[test]
fn failed_reconnect_reports_its_error() {
    let mut stream = stream_with(Some("resp_0"), true);
    let (chunk, lease) =
        emitted(stream.on_reconnect_failed(&ThreadlineError::UpstreamCredentialsUnavailable));
    payload(&chunk, "response.failed");
    assert!(matches!(lease, LeaseEffect::TerminateAndRelease));
    expect_end(&mut stream);
}

#[test]
fn overflow_is_reported_and_not_recovered() {
    let mut stream = stream_with(None, true);
    let (chunk, lease) = emitted(stream.on_upstream_end(UpstreamEnd::InboundBufferOverflow));
    let failure = payload(&chunk, "response.failed");
    assert_eq!(
        failure["response"]["error"]["code"],
        "upstream_inbound_buffer_overflow"
    );
    assert_eq!(
        failure["response"]["error"]["message"],
        "The upstream websocket inbound buffer overflowed."
    );
    assert!(matches!(lease, LeaseEffect::TerminateAndRelease));
    expect_end(&mut stream);
}

#[test]
fn terminal_events_end_the_stream() {
    for (message, event) in [
        (" [DONE] ", "response.failed"),
        (r#"{"type": "response.failed", "response": {"id": "r"}}"#, "response.failed"),
        (
            r#"{"type": "response.incomplete", "response": {"id": "r"}}"#,
            "response.incomplete",
        ),
        (
            r#"{"type": "error", "error": {"message": "went wrong"}}"#,
            "response.failed",
        ),
    ] {
        let mut stream = stream_with(None, true);
        let (chunk, _) = emitted(stream.on_upstream_message(message));
        payload(&chunk, event);
        expect_end(&mut stream);
    }
}

#[test]
fn broken_json_ends_the_stream_with_an_error() {
    let mut stream = stream_with(None, true);
    let (chunk, lease) = emitted(stream.on_upstream_message("{"));
    assert_eq!(
        payload(&chunk, "error")["error"]["code"],
        "upstream_invalid_json"
    );
    assert!(matches!(lease, LeaseEffect::Terminate));
    assert!(matches!(stream.advance(), StreamAction::Finish));
}

#[test]
fn completion_that_shows_nothing_fails_when_guarded() {
    let completed = r#"{"type": "response.completed", "response": {"id": "resp_1", "output": []}}"#;
    let mut guarded = stream_with(None, true);
    let (chunk, lease) = emitted(guarded.on_upstream_message(completed));
    assert_eq!(
        payload(&chunk, "response.failed")["response"]["id"],
        "resp_1"
    );
    assert!(matches!(lease, LeaseEffect::TerminateAndRelease));
    expect_end(&mut guarded);

    let mut open = stream_with(None, false);
    assert!(matches!(
        open.on_upstream_message(completed),
        StreamAction::Advance
    ));
    let (chunk, _) = emitted(open.advance());
    payload(&chunk, "response.completed");
}

#[test]
fn guard_reports_what_a_response_held() {
    let mut stream = stream_with(None, true);
    let event = document(
        r#"{"type": "response.completed", "response": {"id": "r", "output": [{"type": "reasoning"}, {"other": 1}]}}"#,
    );
    stream.on_upstream_event(event.clone());
    let report = no_observable_output_guard_diagnostics(
        &stream,
        &event,
        &CompletedSanitizationDiagnostics::default(),
    );
    assert_eq!(report.response_id.as_deref(), Some("r"));
    assert_eq!(report.completed_output_item_types, vec!["reasoning"]);
    assert_eq!(
        report.upstream_last_event_type.as_deref(),
        Some("response.completed")
    );
    assert_eq!(report.visible_assistant_text_len, 0);
    assert!(!report.is_intermediate_completed);
}

#[test]
fn blank_text_makes_no_delta() {
    let key = VisibleTextSourceKey::new(Some("m".to_string()), Some(1), None);
    assert!(response_output_text_delta_payload(&key, " \n").is_none());
    let payload = response_output_text_delta_payload(&key, "x").expect("payload");
    assert_eq!(payload["type"], "response.output_text.delta");
    assert_eq!(payload["delta"], "x");
    assert_eq!(payload["item_id"], "m");
    assert_eq!(payload["output_index"], 1);
}
