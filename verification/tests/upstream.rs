use serde_json::Value;
use threadline::responses::upstream::{
    build_followup_tool_outputs_payload, build_response_create_payload,
};

fn document(text: &str) -> Value {
    serde_json::from_str(text).expect("document")
}

#[test]
fn build_response_create_payload_sets_required_defaults_and_filters_unsupported_fields() {
    let payload = build_response_create_payload(document(r#"{"model": "gpt-test", "instructions": null, "max_output_tokens": 32, "max_tokens": 64, "max_completion_tokens": 96, "truncation": "auto"}"#))
    .expect("response.create payload");

    assert_eq!(payload["type"], "response.create");
    assert_eq!(payload["store"], false);
    assert_eq!(payload["instructions"], "");
    assert!(payload.get("max_output_tokens").is_none());
    assert!(payload.get("max_tokens").is_none());
    assert!(payload.get("max_completion_tokens").is_none());
    assert!(payload.get("truncation").is_none());
}

#[test]
fn build_response_create_payload_omits_off_reasoning_summary() {
    let payload = build_response_create_payload(document(r#"{"model": "gpt-test", "instructions": "keep", "reasoning": {"effort": "medium", "summary": "off"}}"#))
    .expect("response.create payload");

    assert_eq!(
        payload["reasoning"],
        document(r#"{"effort": "medium"}"#)
    );
}

#[test]
fn build_response_create_payload_removes_empty_reasoning_after_off_summary() {
    let payload = build_response_create_payload(document(r#"{"model": "gpt-test", "instructions": "keep", "reasoning": {"summary": "off"}}"#))
    .expect("response.create payload");

    assert!(payload.get("reasoning").is_none());
}

#[test]
fn build_response_create_payload_preserves_context_management_and_previous_response_id() {
    let payload = build_response_create_payload(document(r#"{"model": "gpt-test", "instructions": "keep", "previous_response_id": "resp_123", "context_management": {"type": "compaction", "compact_threshold": 12345}, "reasoning": {"effort": "high", "summary": "auto"}, "include": ["reasoning.encrypted_content"], "max_output_tokens": 32, "max_tokens": 64, "max_completion_tokens": 96, "truncation": "auto"}"#))
    .expect("response.create payload");

    assert_eq!(payload["type"], "response.create");
    assert_eq!(payload["store"], false);
    assert_eq!(payload["instructions"], "keep");
    assert_eq!(payload["previous_response_id"], "resp_123");
    assert_eq!(
        payload["context_management"],
        document(r#"{"type": "compaction", "compact_threshold": 12345}"#)
    );
    assert_eq!(
        payload["reasoning"],
        document(r#"{"effort": "high", "summary": "auto"}"#)
    );
    assert_eq!(payload["include"], document(r#"["reasoning.encrypted_content"]"#));
    assert!(payload.get("max_output_tokens").is_none());
    assert!(payload.get("max_tokens").is_none());
    assert!(payload.get("max_completion_tokens").is_none());
    assert!(payload.get("truncation").is_none());
}

#[test]
fn build_followup_tool_outputs_payload_preserves_previous_response_id_and_output_shape() {
    let payload = build_followup_tool_outputs_payload(
        document(r#"{"model": "gpt-test", "instructions": "keep", "truncation": "auto"}"#),
        "resp_intermediate",
        document(r#"[{"type": "function_call_output", "call_id": "call_123", "output": "done"}]"#),
    )
    .expect("followup payload");

    assert_eq!(payload["type"], "response.create");
    assert_eq!(payload["store"], false);
    assert_eq!(payload["previous_response_id"], "resp_intermediate");
    assert_eq!(payload["instructions"], "keep");
    assert_eq!(payload["input"][0]["type"], "function_call_output");
    assert_eq!(payload["input"][0]["call_id"], "call_123");
    assert_eq!(payload["input"][0]["output"], "done");
    assert!(payload.get("truncation").is_none());
}
