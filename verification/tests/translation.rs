use serde_json::Value;
use threadline::responses::completed::{
    sanitized_completed_event_with_diagnostics, CompletedSanitizationDiagnostics,
};
use threadline::responses::trace::{
    downstream_sse_trace_metadata, DownstreamTraceAction, DownstreamTraceDiagnostics,
    UpstreamEventTraceMetadata, RESPONSES_TRANSLATION_DOWNSTREAM_SSE_EVENT,
    RESPONSES_TRANSLATION_EVENT_SUPPRESSED, RESPONSES_TRANSLATION_NO_OBSERVABLE_OUTPUT_GUARD,
    RESPONSES_TRANSLATION_UPSTREAM_EVENT,
};
use threadline::responses::visible::{VisibleAssistantText, VisibleTextSourceKey};

fn document(text: &str) -> Value {
    serde_json::from_str(text).expect("document")
}

fn fill(value: Value, parts: &[Value]) -> Value {
    match value {
        Value::String(text) => match text.strip_prefix('$').and_then(|n| n.parse::<usize>().ok()) {
            Some(index) => parts[index].clone(),
            None => Value::String(text),
        },
        Value::Array(items) => Value::Array(items.into_iter().map(|item| fill(item, parts)).collect()),
        Value::Object(members) => {
            Value::Object(members.into_iter().map(|(key, item)| (key, fill(item, parts))).collect())
        }
        other => other,
    }
}

fn document_with(text: &str, parts: &[Value]) -> Value {
    fill(document(text), parts)
}

#[test]
fn upstream_event_trace_metadata_redacts_argument_bodies_and_keeps_lengths() {
    let arguments = "{\"input\":\"*** Begin Patch\\nsecret\\n*** End Patch\"}";
    let parsed = document_with(r#"{"type": "response.output_item.added", "output_index": 2, "item_id": "item-visible", "item": {"type": "function_call", "call_id": "call-visible", "name": "apply_patch", "arguments": "$0"}}"#, &[Value::from(arguments)]);

    let metadata = UpstreamEventTraceMetadata::from_event(&parsed);

    assert_eq!(metadata.event_type, "response.output_item.added");
    assert_eq!(metadata.item_type.as_deref(), Some("function_call"));
    assert_eq!(metadata.item_name.as_deref(), Some("apply_patch"));
    assert_eq!(metadata.call_id.as_deref(), Some("call-visible"));
    assert_eq!(metadata.arguments_length, Some(arguments.len()));
    assert_eq!(metadata.output_index, Some(2));
    assert_eq!(metadata.item_id.as_deref(), Some("item-visible"));
}

#[test]
fn downstream_sse_trace_metadata_reports_action_without_delta_body() {
    let delta = "{\"input\":\"*** Begin Patch";
    let parsed = document_with(r#"{"type": "response.function_call_arguments.delta", "output_index": 1, "item_id": "fc_apply_patch_1", "delta": "$0"}"#, &[Value::from(delta)]);

    let metadata =
        downstream_sse_trace_metadata(&parsed, DownstreamTraceAction::Forwarded, None);

    assert_eq!(
        metadata.event.event_type,
        "response.function_call_arguments.delta"
    );
    assert_eq!(
        metadata.translation_action,
        DownstreamTraceAction::Forwarded.as_str()
    );
    assert_eq!(metadata.event.delta_length, Some(delta.len()));
    assert_eq!(metadata.event.output_index, Some(1));
    assert_eq!(metadata.event.item_id.as_deref(), Some("fc_apply_patch_1"));
    assert_eq!(metadata.event.arguments_length, None);
    assert_eq!(metadata.event.item_name, None);
}

#[test]
fn synthetic_delta_emission_records_source_and_lengths_without_text() {
    let synthetic_text = "synthesized visible assistant text";
    let parsed = document_with(r#"{"type": "response.output_text.delta", "item_id": "msg-visible", "output_index": 3, "content_index": 1, "delta": "$0"}"#, &[Value::from(synthetic_text)]);

    let metadata = downstream_sse_trace_metadata(
        &parsed,
        DownstreamTraceAction::Forwarded,
        Some(&DownstreamTraceDiagnostics {
            response_id: Some("response-visible".to_string()),
            synthetic_delta_source: Some("response.output_text.done"),
            visible_text_delta_count: Some(1),
            visible_text_length: Some(synthetic_text.len()),
            ..Default::default()
        }),
    );
    let metadata_debug = format!("{metadata:?}");

    assert_eq!(metadata.translation_action, "forwarded");
    assert_eq!(metadata.event.event_type, "response.output_text.delta");
    assert_eq!(metadata.event.response_id.as_deref(), Some("response-visible"));
    assert_eq!(metadata.event.item_id.as_deref(), Some("msg-visible"));
    assert_eq!(metadata.event.output_index, Some(3));
    assert_eq!(metadata.event.content_index, Some(1));
    assert_eq!(
        metadata.diagnostics.synthetic_delta_source,
        Some("response.output_text.done")
    );
    assert_eq!(metadata.diagnostics.visible_text_delta_count, Some(1));
    assert_eq!(metadata.diagnostics.visible_text_length, Some(synthetic_text.len()));
    assert!(!metadata_debug.contains(synthetic_text));
}

#[test]
fn sanitized_completed_event_preserves_compaction_output() {
    let parsed = document(r#"{"type": "response.completed", "response": {"id": "response-compaction-only", "output": [{"type": "compaction", "id": "compaction-1", "encrypted_content": "opaque-compaction-payload"}]}}"#);

    let (sanitized, diagnostics) = sanitized_completed_event_with_diagnostics(&parsed, &Vec::new());
    let sanitized_output = sanitized["response"]["output"]
        .as_array()
        .expect("sanitized output array");

    assert_eq!(diagnostics, CompletedSanitizationDiagnostics::default());
    assert_eq!(sanitized_output.len(), 1);
    assert_eq!(sanitized_output[0]["type"], "compaction");
    assert_eq!(sanitized_output[0]["id"], "compaction-1");
    assert_eq!(sanitized_output[0]["encrypted_content"], "opaque-compaction-payload");
}

#[test]
fn sanitized_completed_event_removes_internal_function_calls_but_preserves_compaction() {
    let encrypted_content = "opaque-compaction-payload";
    let internal_arguments = "{\"token\":\"secret\"}";
    let visible_text = vec![VisibleAssistantText {
        key: VisibleTextSourceKey::new(Some("message-visible".to_string()), Some(2), Some(0)),
        text: "visible assistant answer".to_string(),
    }];
    let parsed = document_with(r#"{"type": "response.completed", "response": {"id": "response-sanitized", "output": [{"type": "function_call", "id": "fc-internal", "name": "threadline_echo", "arguments": "$0"}, {"type": "compaction", "id": "compaction-1", "encrypted_content": "$1"}]}}"#, &[Value::from(internal_arguments), Value::from(encrypted_content)]);

    let (sanitized, diagnostics) =
        sanitized_completed_event_with_diagnostics(&parsed, &visible_text);
    let diagnostics_debug = format!("{diagnostics:?}");
    let sanitized_output = sanitized["response"]["output"]
        .as_array()
        .expect("sanitized output array");

    assert_eq!(
        diagnostics,
        CompletedSanitizationDiagnostics {
            sanitized_internal_function_call_count: 1,
            sanitized_compaction_count: 0,
            completed_visible_message_count: 1,
        }
    );
    assert_eq!(sanitized_output.len(), 2);
    assert_eq!(sanitized_output[0]["type"], "compaction");
    assert_eq!(sanitized_output[0]["id"], "compaction-1");
    assert_eq!(sanitized_output[0]["encrypted_content"], encrypted_content);
    assert_eq!(sanitized_output[1]["type"], "message");
    assert!(!diagnostics_debug.contains(encrypted_content));
    assert!(!diagnostics_debug.contains(internal_arguments));
}

#[test]
fn completed_sanitization_preserves_concrete_non_text_observable_output() {
    let parsed = document(r#"{"type": "response.completed", "response": {"id": "response-non-text-observable", "output": [{"type": "function_call", "id": "fc-internal", "name": "threadline_echo", "arguments": "{\"value\":\"hidden\"}"}, {"type": "function_call", "id": "fc-external", "call_id": "call-visible", "name": "apply_patch", "arguments": "{\"input\":\"*** Begin Patch\\n*** End Patch\"}"}, {"type": "image_generation_call", "id": "img-1", "result": "image-asset-1"}, {"type": "context", "id": "ctx-1", "summary": "context snapshot"}, {"type": "compaction", "id": "cmp-1", "encrypted_content": "opaque"}]}}"#);

    let (sanitized, diagnostics) = sanitized_completed_event_with_diagnostics(&parsed, &Vec::new());
    let sanitized_output = sanitized["response"]["output"]
        .as_array()
        .expect("sanitized output array");

    assert_eq!(
        diagnostics,
        CompletedSanitizationDiagnostics {
            sanitized_internal_function_call_count: 1,
            sanitized_compaction_count: 0,
            completed_visible_message_count: 0,
        }
    );
    assert_eq!(sanitized_output.len(), 4);
    assert_eq!(sanitized_output[0]["id"], "fc-external");
    assert_eq!(sanitized_output[0]["name"], "apply_patch");
    assert_eq!(sanitized_output[1]["id"], "img-1");
    assert_eq!(sanitized_output[1]["type"], "image_generation_call");
    assert_eq!(sanitized_output[2]["id"], "ctx-1");
    assert_eq!(sanitized_output[2]["type"], "context");
    assert_eq!(sanitized_output[3]["id"], "cmp-1");
    assert_eq!(sanitized_output[3]["type"], "compaction");
}

#[test]
fn upstream_event_trace_metadata_reports_compaction_without_encrypted_content() {
    let encrypted_content = "opaque-compaction-payload";
    let parsed = document_with(r#"{"type": "response.output_item.done", "output_index": 4, "item": {"type": "compaction", "id": "compaction-visible", "encrypted_content": "$0"}}"#, &[Value::from(encrypted_content)]);

    let metadata = UpstreamEventTraceMetadata::from_event(&parsed);
    let metadata_debug = format!("{metadata:?}");

    assert_eq!(metadata.event_type, "response.output_item.done");
    assert_eq!(metadata.item_type.as_deref(), Some("compaction"));
    assert!(metadata.is_compaction);
    assert_eq!(
        metadata.compaction_id.as_deref(),
        Some("compaction-visible")
    );
    assert_eq!(metadata.output_index, Some(4));
    assert_eq!(metadata.has_encrypted_content, Some(true));
    assert!(!metadata_debug.contains(encrypted_content));
}

#[test]
fn upstream_event_trace_metadata_reports_compaction_without_blob_when_missing() {
    let parsed = document(r#"{"type": "response.output_item.added", "output_index": 0, "item": {"type": "compaction", "id": "compaction-empty"}}"#);

    let metadata = UpstreamEventTraceMetadata::from_event(&parsed);

    assert!(metadata.is_compaction);
    assert_eq!(metadata.compaction_id.as_deref(), Some("compaction-empty"));
    assert_eq!(metadata.has_encrypted_content, Some(false));
}

#[test]
fn translation_trace_event_names_remain_stable() {
    assert_eq!(
        RESPONSES_TRANSLATION_UPSTREAM_EVENT,
        "responses_translation_upstream_event"
    );
    assert_eq!(
        RESPONSES_TRANSLATION_DOWNSTREAM_SSE_EVENT,
        "responses_translation_downstream_sse_event"
    );
    assert_eq!(
        RESPONSES_TRANSLATION_EVENT_SUPPRESSED,
        "responses_translation_event_suppressed"
    );
    assert_eq!(
        RESPONSES_TRANSLATION_NO_OBSERVABLE_OUTPUT_GUARD,
        "responses_translation_no_observable_output_guard"
    );
}
