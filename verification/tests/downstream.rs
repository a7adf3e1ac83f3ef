use serde_json::Value;
use threadline::errors::ThreadlineError;
use threadline::responses::downstream::{
    parse_downstream_request, wants_reasoning_all_turns, DownstreamRequestClassification,
};
use threadline::responses::sse::{
    safe_scalar_field, sse_done_chunk, sse_error_chunk, sse_json_chunk, sse_payload_chunk,
    sse_terminal_response_failed_chunk, sse_terminal_response_incomplete_chunk,
};

fn document(text: &str) -> Value {
    serde_json::from_str(text).expect("document")
}

fn fill(value: Value, parts: &[Value]) -> Value {
    match value {
        Value::String(text) => match text.strip_prefix('$').and_then(|n| n.parse::<usize>().ok()) {
            Some(index) => parts[index].clone(),
            None => Value::String(text),
        },
        Value::Array(items) => Value::Array(items.into_iter().map(|item| fill(item, parts)).collect()),
        Value::Object(members) => {
            Value::Object(members.into_iter().map(|(key, item)| (key, fill(item, parts))).collect())
        }
        other => other,
    }
}

fn document_with(text: &str, parts: &[Value]) -> Value {
    fill(document(text), parts)
}

fn auxiliary_summary_text() -> &'static str {
    "The conversation has grown too large for the context window and must be compacted now\
        \n\n\
        Your ONLY task right now is to produce a comprehensive summary\
        \n\
        Output your summary wrapped in <summary> and </summary> tags"
}

fn auxiliary_summary_input_item() -> Value {
    document_with(r#"{"type": "message", "role": "system", "content": [{"type": "input_text", "text": "$0"}]}"#, &[Value::from(auxiliary_summary_text())])
}

fn manual_summary_text() -> &'static str {
    "Summarize the conversation history so far, paying special attention to the most recent agent commands and tool results\
        \n\n\
        Structure your summary using the enhanced format provided in the system message\
        \n\
        Include all important tool calls and their results"
}

fn manual_summary_input_item() -> Value {
    document_with(r#"{"type": "message", "role": "system", "content": [{"type": "input_text", "text": "$0"}]}"#, &[Value::from(manual_summary_text())])
}

fn manual_simple_summary_text() -> &'static str {
    "Summarize the conversation history so far, paying special attention to the most recent agent commands and tool results\
        \n\n\
        Include all important tool calls and their results"
}

fn manual_simple_summary_input_item() -> Value {
    document_with(r#"{"type": "message", "role": "system", "content": [{"type": "input_text", "text": "$0"}]}"#, &[Value::from(manual_simple_summary_text())])
}

fn simple_history_context_text() -> &'static str {
    "The following is a compressed version of the preceeding history in the current conversation"
}

fn simple_history_context_input_item() -> Value {
    document_with(r#"{"type": "message", "role": "system", "content": [{"type": "input_text", "text": "$0"}]}"#, &[Value::from(simple_history_context_text())])
}

fn new_auto_system_summary_text() -> &'static str {
    "Your task is to create a comprehensive, detailed summary of the entire conversation that captures all essential information needed to seamlessly continue the work without any loss of context"
}

fn new_auto_compressed_history_text() -> &'static str {
    "The following is a compressed version of the preceeding history in the current conversation"
}

fn new_auto_compressed_history_text_corrected() -> &'static str {
    "The following is a compressed version of the preceding history in the current conversation"
}

fn new_auto_final_summary_prompt_text() -> &'static str {
    "Summarize the conversation history so far, paying special attention to the most recent agent commands and tool results that triggered this summarization. Structure your summary using the enhanced format provided in the system message.\nFocus particularly on:\n- The specific agent commands/tools that were just executed\n- The results returned from these recent tool calls (truncate if very long but preserve key information)\n- What the agent was actively working on when the token budget was exceeded\n- How these recent operations connect to the overall user goals\nInclude all important tool calls and their results as part of the appropriate sections, with special emphasis on the most recent operations."
}

fn input_text_message(role: &str, text: &str) -> Value {
    document_with(r#"{"type": "message", "role": "$0", "content": [{"type": "input_text", "text": "$1"}]}"#, &[Value::from(role), Value::from(text)])
}

#[test]
fn wants_reasoning_all_turns_matches_only_exact_string_value() {
    assert!(wants_reasoning_all_turns(
        document(r#"{"reasoning": {"context": "all_turns"}}"#)
        .as_object()
        .expect("object payload")
    ));

    assert!(!wants_reasoning_all_turns(
        document(r#"{"reasoning": {"context": "last_turn"}}"#)
        .as_object()
        .expect("object payload")
    ));
}

#[test]
fn wants_reasoning_all_turns_returns_false_for_missing_or_non_object_reasoning() {
    assert!(!wants_reasoning_all_turns(
        document(r#"{"input": "no reasoning"}"#)
            .as_object()
            .expect("object payload")
    ));

    assert!(!wants_reasoning_all_turns(
        document(r#"{"reasoning": "all_turns"}"#)
            .as_object()
            .expect("object payload")
    ));
}

#[test]
fn wants_reasoning_all_turns_returns_false_for_non_string_context() {
    assert!(!wants_reasoning_all_turns(
        document(r#"{"reasoning": {"context": true}}"#)
        .as_object()
        .expect("object payload")
    ));
}

fn new_auto_system_summary_input_item() -> Value {
    input_text_message("system", new_auto_system_summary_text())
}

fn new_auto_compressed_history_input_item() -> Value {
    input_text_message("user", new_auto_compressed_history_text())
}

fn new_auto_compressed_history_input_item_corrected() -> Value {
    input_text_message("user", new_auto_compressed_history_text_corrected())
}

fn new_auto_final_summary_prompt_input_item() -> Value {
    input_text_message("user", new_auto_final_summary_prompt_text())
}

fn classify_input(input: Vec<Value>) -> DownstreamRequestClassification {
    parse_downstream_request(document_with(r#"{"previous_response_id": "resp_123", "input": "$0"}"#, &[Value::from(input)]))
    .expect("parse request")
    .classification
}

fn sanitized_observed_auxiliary_summary_request() -> Value {
    document_with(r#"{"model": "gpt-5.4", "previous_response_id": "resp_123", "context_management": {"type": "compaction", "compact_threshold": 12345}, "tools": [{"type": "function", "name": "user_tool", "description": "User-defined tool", "parameters": {"type": "object", "properties": {}, "additionalProperties": false}}, {"type": "function", "name": "threadline_echo", "description": "Threadline internal tool", "parameters": {"type": "object", "properties": {"value": {"type": "string"}}, "required": ["value"], "additionalProperties": false}}], "input": [{"type": "message", "role": "user", "content": [{"type": "input_text", "text": "Continue from the earlier answer."}]}, "$0"]}"#, &[Value::from(auxiliary_summary_input_item())])
}

#[test]
fn parse_downstream_request_extracts_previous_response_id_and_payload() {
    let request = parse_downstream_request(document(r#"{"previous_response_id": "resp_123", "model": "gpt-5.4", "stream": true}"#))
    .expect("parse request");

    assert_eq!(request.previous_response_id.as_deref(), Some("resp_123"));
    assert_eq!(request.payload.get("model"), Some(&document(r#""gpt-5.4""#)));
    assert_eq!(request.payload.get("stream"), Some(&document(r#"true"#)));
    assert!(!request.payload.contains_key("previous_response_id"));
}

#[test]
fn parse_downstream_request_identifies_auxiliary_summary_request() {
    let request = parse_downstream_request(sanitized_observed_auxiliary_summary_request())
        .expect("parse request");

    assert_eq!(
        request.classification,
        DownstreamRequestClassification::AuxiliarySummary
    );
}

#[test]
fn parse_downstream_request_does_not_classify_context_management_only() {
    let request = parse_downstream_request(document(r#"{"previous_response_id": "resp_123", "context_management": {"type": "auto"}, "input": [{"type": "message", "role": "user", "content": [{"type": "input_text", "text": "Please continue the earlier task."}]}]}"#))
    .expect("parse request");

    assert_eq!(
        request.classification,
        DownstreamRequestClassification::Normal
    );
}

#[test]
fn parse_downstream_request_does_not_classify_fingerprints_outside_input() {
    let request = parse_downstream_request(document_with(r#"{"previous_response_id": "resp_123", "metadata": {"summary_prompt": "$0"}, "input": [{"type": "message", "role": "user", "content": [{"type": "input_text", "text": "Please continue the earlier task."}]}]}"#, &[Value::from(auxiliary_summary_text())]))
    .expect("parse request");

    assert_eq!(
        request.classification,
        DownstreamRequestClassification::Normal
    );
}

#[test]
fn parse_downstream_request_does_not_classify_partial_summary_quote() {
    let request = parse_downstream_request(document(r#"{"previous_response_id": "resp_123", "input": [{"type": "message", "role": "system", "content": [{"type": "input_text", "text": "The conversation has grown too large for the context window and must be compacted now"}]}]}"#))
    .expect("parse request");

    assert_eq!(
        request.classification,
        DownstreamRequestClassification::Normal
    );
}

#[test]
fn parse_downstream_request_does_not_classify_user_role_full_prompt_quote() {
    let request = parse_downstream_request(document_with(r#"{"previous_response_id": "resp_123", "input": [{"type": "message", "role": "user", "content": [{"type": "input_text", "text": "$0"}]}]}"#, &[Value::from(auxiliary_summary_text())]))
    .expect("parse request");

    assert_eq!(
        request.classification,
        DownstreamRequestClassification::Normal
    );
}

#[test]
fn parse_downstream_request_classifies_manual_full_summary_prompt_fingerprints() {
    assert_eq!(
        classify_input(vec![
            document(r#"{"type": "message", "role": "user", "content": [{"type": "input_text", "text": "Continue from the earlier answer."}]}"#),
            manual_summary_input_item(),
        ]),
        DownstreamRequestClassification::AuxiliarySummary
    );
}

#[test]
fn parse_downstream_request_classifies_manual_simple_summary_prompt_fingerprints() {
    assert_eq!(
        classify_input(vec![
            manual_simple_summary_input_item(),
            document(r#"{"type": "message", "role": "user", "content": [{"type": "input_text", "text": "Acknowledge the compaction request."}]}"#),
        ]),
        DownstreamRequestClassification::AuxiliarySummary
    );
}

#[test]
fn parse_downstream_request_does_not_classify_user_role_manual_summary_quote_only() {
    assert_eq!(
        classify_input(vec![document_with(r#"{"type": "message", "role": "user", "content": [{"type": "input_text", "text": "$0"}]}"#, &[Value::from(format!("Quoted prompt: {}", manual_summary_text()))])]),
        DownstreamRequestClassification::Normal
    );
}

#[test]
fn parse_downstream_request_classifies_new_auto_compaction_prompt_fingerprints() {
    assert_eq!(
        classify_input(vec![
            new_auto_system_summary_input_item(),
            new_auto_compressed_history_input_item(),
            new_auto_final_summary_prompt_input_item(),
        ]),
        DownstreamRequestClassification::AuxiliarySummary
    );
}

#[test]
fn parse_downstream_request_does_not_classify_new_auto_user_quote_only() {
    assert_eq!(
        classify_input(vec![
            new_auto_compressed_history_input_item(),
            new_auto_final_summary_prompt_input_item(),
        ]),
        DownstreamRequestClassification::Normal
    );
}

#[test]
fn parse_downstream_request_does_not_classify_new_auto_partial_fingerprints() {
    for (name, input) in [
        (
            "system_plus_history_only",
            vec![
                new_auto_system_summary_input_item(),
                new_auto_compressed_history_input_item(),
            ],
        ),
        (
            "system_plus_final_prompt_only",
            vec![
                new_auto_system_summary_input_item(),
                new_auto_final_summary_prompt_input_item(),
            ],
        ),
        (
            "history_plus_final_prompt_only",
            vec![
                new_auto_compressed_history_input_item(),
                new_auto_final_summary_prompt_input_item(),
            ],
        ),
        ("system_only", vec![new_auto_system_summary_input_item()]),
        (
            "history_only",
            vec![new_auto_compressed_history_input_item()],
        ),
        (
            "final_prompt_only",
            vec![new_auto_final_summary_prompt_input_item()],
        ),
    ] {
        assert_eq!(
            classify_input(input),
            DownstreamRequestClassification::Normal,
            "fixture should remain normal: {name}"
        );
    }
}

#[test]
fn parse_downstream_request_does_not_classify_new_auto_fingerprints_outside_input_text() {
    let request = parse_downstream_request(document_with(r#"{"previous_response_id": "resp_123", "metadata": {"system_prompt": "$0", "history": "$1", "final_prompt": "$2"}, "tools": [{"type": "function", "name": "echo", "parameters": {"type": "object", "properties": {"summary": {"type": "string", "description": "$3"}}}}], "input": [{"type": "message", "role": "system", "content": [{"type": "input_image", "image_url": "$4"}]}, {"type": "message", "role": "user", "content": [{"type": "input_text", "text": "Please continue the earlier task."}]}]}"#, &[Value::from(new_auto_system_summary_text()), Value::from(new_auto_compressed_history_text()), Value::from(new_auto_final_summary_prompt_text()), Value::from(new_auto_final_summary_prompt_text()), Value::from(new_auto_system_summary_text())]))
    .expect("parse request");

    assert_eq!(
        request.classification,
        DownstreamRequestClassification::Normal
    );
}

#[test]
fn parse_downstream_request_classifies_new_auto_compaction_prompt_with_corrected_history_spelling()
 {
    assert_eq!(
        classify_input(vec![
            new_auto_system_summary_input_item(),
            new_auto_compressed_history_input_item_corrected(),
            new_auto_final_summary_prompt_input_item(),
        ]),
        DownstreamRequestClassification::AuxiliarySummary
    );
}

#[test]
fn parse_downstream_request_classifies_auto_background_compaction_in_non_final_shapes() {
    for (name, input) in [
        (
            "auto_summary_followed_by_user_message",
            vec![
                auxiliary_summary_input_item(),
                document(r#"{"type": "message", "role": "user", "content": [{"type": "input_text", "text": "Please keep this request moving."}]}"#),
            ],
        ),
        (
            "auto_summary_before_non_message_item",
            vec![
                auxiliary_summary_input_item(),
                document(r#"{"type": "input_text", "text": "Resume after compaction."}"#),
            ],
        ),
    ] {
        assert_eq!(
            classify_input(input),
            DownstreamRequestClassification::AuxiliarySummary,
            "fixture should classify as auxiliary summary: {name}"
        );
    }
}

#[test]
fn parse_downstream_request_classifies_simple_history_context_only_with_summary_prompt() {
    for (name, input) in [
        (
            "simple_history_plus_manual_summary_prompt",
            vec![
                simple_history_context_input_item(),
                manual_summary_input_item(),
            ],
        ),
        (
            "simple_history_plus_auto_summary_prompt",
            vec![
                simple_history_context_input_item(),
                auxiliary_summary_input_item(),
            ],
        ),
    ] {
        assert_eq!(
            classify_input(input),
            DownstreamRequestClassification::AuxiliarySummary,
            "fixture should classify as auxiliary summary: {name}"
        );
    }
}

#[test]
fn parse_downstream_request_keeps_ordinary_and_quoted_summary_shapes_normal() {
    for (name, input) in [
        (
            "ordinary_user_prompt",
            vec![document(r#"{"type": "message", "role": "user", "content": [{"type": "input_text", "text": "Please continue the earlier task."}]}"#)],
        ),
        (
            "simple_history_only_context",
            vec![simple_history_context_input_item()],
        ),
        (
            "user_role_full_prompt_quote_with_simple_history_context",
            vec![
                simple_history_context_input_item(),
                document_with(r#"{"type": "message", "role": "user", "content": [{"type": "input_text", "text": "$0"}]}"#, &[Value::from("Quoted prompt: \
        Summarize the conversation history so far, paying special attention to the most recent agent commands and tool results\
        \n\n\
        Structure your summary using the enhanced format provided in the system message\
        \n\
        Include all important tool calls and their results")]),
            ],
        ),
    ] {
        assert_eq!(
            classify_input(input),
            DownstreamRequestClassification::Normal,
            "fixture should remain normal: {name}"
        );
    }
}

#[test]
fn sse_payload_chunk_keeps_single_line_frame() {
    let chunk = sse_payload_chunk("response.output_text.delta", "{\"delta\":\"hi\"}");

    assert_eq!(
        chunk.as_str(),
        "event: response.output_text.delta\ndata: {\"delta\":\"hi\"}\n\n"
    );
}

#[test]
fn sse_json_chunk_serializes_compact_json() {
    let chunk = sse_json_chunk("response.completed", &document(r#"{"id": "resp_1", "ok": true}"#));

    assert_eq!(
        chunk.as_str(),
        "event: response.completed\ndata: {\"id\":\"resp_1\",\"ok\":true}\n\n"
    );
}

#[test]
fn sse_done_chunk_keeps_bare_done_payload() {
    let chunk = sse_done_chunk();

    assert_eq!(
        chunk.as_str(),
        "data: [DONE]\n\n"
    );
}

#[test]
fn sse_terminal_response_failed_chunk_preserves_public_shape() {
    let chunk = sse_terminal_response_failed_chunk(&document(r#"{"type": "response.failed", "response": {"id": 42}, "error": {"code": "tool_timeout", "message": "tool timed out"}}"#));

    assert_eq!(
        chunk.as_str(),
        "event: response.failed\n\
        data: {\"response\":{\"error\":{\"code\":\"tool_timeout\",\"message\":\"tool timed out\"},\"id\":\"42\",\"status\":\"failed\"},\"type\":\"response.failed\"}\n\n"
    );
}

#[test]
fn sse_terminal_response_failed_chunk_uses_fallback_error_fields() {
    let chunk = sse_terminal_response_failed_chunk(&document(r#"{"type": "response.failed", "response": {}, "error": {}}"#));

    assert_eq!(
        chunk.as_str(),
        "event: response.failed\n\
        data: {\"response\":{\"error\":{\"code\":\"upstream_response_failed\",\"message\":\"The upstream response.failed event cannot be streamed as a successful downstream response.\"},\"status\":\"failed\"},\"type\":\"response.failed\"}\n\n"
    );
}

#[test]
fn sse_terminal_response_incomplete_chunk_preserves_safe_terminal_fields() {
    let chunk = sse_terminal_response_incomplete_chunk(&document(r#"{"response": {"id": "response-1", "model": "gpt-5.4", "usage": {"input_tokens": 4, "output_tokens": 2, "total_tokens": 6}, "output": [{"id": "assistant-1", "type": "message", "role": "assistant", "content": [{"type": "output_text", "text": "partial"}]}], "incomplete_details": {"reason": "max_output_tokens", "ignored": {"nested": true}}}}"#));

    let payload = chunk.as_str()
        .strip_prefix("event: response.incomplete\ndata: ")
        .and_then(|text| text.strip_suffix("\n\n"))
        .map(|text| serde_json::from_str::<Value>(text).expect("payload json"))
        .expect("incomplete payload");

    assert_eq!(payload["type"], "response.incomplete");
    assert_eq!(payload["response"]["id"], "response-1");
    assert_eq!(payload["response"]["model"], "gpt-5.4");
    assert_eq!(payload["response"]["usage"]["total_tokens"], 6);
    assert_eq!(
        payload["response"]["output"][0]["content"][0]["text"],
        "partial"
    );
    assert_eq!(
        payload["response"]["incomplete_details"]["reason"],
        "max_output_tokens"
    );
}

#[test]
fn safe_scalar_field_accepts_only_scalar_values() {
    assert_eq!(
        safe_scalar_field(&document(r#""hello""#)),
        Some("hello".to_string())
    );
    assert_eq!(safe_scalar_field(&document(r#"7"#)), Some("7".to_string()));
    assert_eq!(safe_scalar_field(&document(r#"false"#)), Some("false".to_string()));
    assert_eq!(safe_scalar_field(&Value::Null), None);
    assert_eq!(safe_scalar_field(&document(r#"[1, 2, 3]"#)), None);
    assert_eq!(safe_scalar_field(&document(r#"{"a": 1}"#)), None);
}

#[test]
fn sse_error_chunk_preserves_public_error_shape() {
    let chunk = sse_error_chunk(&ThreadlineError::UpstreamWebSocketClosed);

    assert_eq!(
        chunk.as_str(),
        "event: error\n\
        data: {\"error\":{\"code\":\"upstream_websocket_closed\",\"message\":\"The upstream Codex websocket closed before Threadline finished streaming the response.\",\"type\":\"bad_gateway_error\"}}\n\n"
    );
}
