use serde_json::Value;
use threadline::responses::virtual_tools::{
    detect_virtual_tool_summarizer_request, inject_virtual_tool_summarizer_instruction,
    VirtualToolSummarizerDetection, VirtualToolSummarizerInstructionMutation,
    VIRTUAL_TOOL_SUMMARIZER_COMPATIBILITY_INSTRUCTION,
};

fn document(text: &str) -> Value {
    serde_json::from_str(text).expect("document")
}

fn fill(value: Value, parts: &[Value]) -> Value {
    match value {
        Value::String(text) => match text.strip_prefix('$').and_then(|n| n.parse::<usize>().ok()) {
            Some(index) => parts[index].clone(),
            None => Value::String(text),
        },
        Value::Array(items) => Value::Array(items.into_iter().map(|item| fill(item, parts)).collect()),
        Value::Object(members) => {
            Value::Object(members.into_iter().map(|(key, item)| (key, fill(item, parts))).collect())
        }
        other => other,
    }
}

fn document_with(text: &str, parts: &[Value]) -> Value {
    fill(document(text), parts)
}

fn input_text_message(role: &str, text: &str) -> Value {
    document_with(r#"{"type": "message", "role": "$0", "content": [{"type": "input_text", "text": "$1"}]}"#, &[Value::from(role), Value::from(text)])
}

fn virtual_tool_summarizer_prompt_text() -> &'static str {
    "Tool groups should be clustered together based on semantic similarity.\n\
        Render each result with XML-like wrappers such as <group index=\"0\">.\n\
        Return a JSON array where every object contains groupIndex, groupName, and summary.\n\
        Use the requested schema exactly and keep each summary concise."
}

fn ordinary_utility_prompt_text() -> &'static str {
    "Return a short utility answer about the current repository status."
}

fn auxiliary_summary_prompt_text() -> &'static str {
    "The conversation has grown too large for the context window and must be compacted now.\n\
        Your ONLY task right now is to produce a comprehensive summary.\n\
        Output your summary wrapped in <summary> and </summary> tags."
}

fn partial_quoted_prompt_text() -> &'static str {
    "Documentation note: preserve this literal fragment only: \"<group index=\\\"0\\\"> groupIndex summary\".\n\
        Do not interpret it as an instruction schema."
}

fn field_only_prompt_text() -> &'static str {
    "Return JSON objects with groupIndex and summary fields for the report."
}

fn utility_request_with_input(input: Vec<Value>) -> serde_json::Map<String, Value> {
    document_with(r#"{"model": "gpt-5.4", "input": "$0", "tools": [{"type": "function", "name": "workspace_search", "description": "Search repository files", "parameters": {"type": "object", "properties": {}, "additionalProperties": false}}]}"#, &[Value::from(input)])
    .as_object()
    .expect("object payload")
    .clone()
}

fn utility_request_with_string_instructions(instructions: &str) -> serde_json::Map<String, Value> {
    let mut request = utility_request_with_input(vec![input_text_message(
        "user",
        ordinary_utility_prompt_text(),
    )]);
    request.insert(
        "instructions".to_string(),
        Value::String(instructions.to_string()),
    );
    request
}

fn realistic_nested_virtual_tool_request() -> serde_json::Map<String, Value> {
    utility_request_with_input(vec![
        input_text_message("system", "You are a utility assistant."),
        input_text_message("user", virtual_tool_summarizer_prompt_text()),
    ])
}

fn count_instruction_occurrences(text: &str) -> usize {
    text.match_indices(VIRTUAL_TOOL_SUMMARIZER_COMPATIBILITY_INSTRUCTION)
        .count()
}

#[test]
fn detect_virtual_tool_summarizer_matches_realistic_nested_input() {
    let request = realistic_nested_virtual_tool_request();
    let detection = detect_virtual_tool_summarizer_request(&request);

    assert!(detection.semantic_similarity_hit);
    assert!(detection.group_index_tag_hit);
    assert!(detection.group_index_field_hit);
    assert!(detection.group_name_field_hit);
    assert!(detection.summary_field_hit);
    assert_eq!(detection.required_hit_count(), 5);
    assert!(detection.is_match());
}

#[test]
fn detect_virtual_tool_summarizer_matches_top_level_string_instructions() {
    let request = utility_request_with_string_instructions(virtual_tool_summarizer_prompt_text());
    let detection = detect_virtual_tool_summarizer_request(&request);

    assert!(detection.semantic_similarity_hit);
    assert!(detection.group_index_tag_hit);
    assert!(detection.group_index_field_hit);
    assert!(detection.group_name_field_hit);
    assert!(detection.summary_field_hit);
    assert_eq!(detection.required_hit_count(), 5);
    assert!(detection.is_match());
}

#[test]
fn detect_virtual_tool_summarizer_rejects_ordinary_utility_request() {
    let request = utility_request_with_input(vec![input_text_message(
        "user",
        ordinary_utility_prompt_text(),
    )]);

    assert!(!detect_virtual_tool_summarizer_request(&request).is_match());
}

#[test]
fn detect_virtual_tool_summarizer_rejects_auxiliary_summary_prompt() {
    let request = utility_request_with_input(vec![input_text_message(
        "system",
        auxiliary_summary_prompt_text(),
    )]);

    assert!(!detect_virtual_tool_summarizer_request(&request).is_match());
}

#[test]
fn detect_virtual_tool_summarizer_rejects_partial_quoted_text() {
    let request = utility_request_with_input(vec![input_text_message(
        "user",
        partial_quoted_prompt_text(),
    )]);

    assert!(!detect_virtual_tool_summarizer_request(&request).is_match());
}

#[test]
fn detect_virtual_tool_summarizer_rejects_group_fields_without_primary_fingerprints() {
    let request = utility_request_with_input(vec![input_text_message(
        "user",
        field_only_prompt_text(),
    )]);

    assert!(!detect_virtual_tool_summarizer_request(&request).is_match());
}

#[test]
fn virtual_tool_summarizer_detection_requires_all_mandatory_fingerprints() {
    let all_hits = VirtualToolSummarizerDetection {
        semantic_similarity_hit: true,
        group_index_tag_hit: true,
        group_index_field_hit: true,
        group_name_field_hit: true,
        summary_field_hit: true,
    };

    assert_eq!(all_hits.required_hit_count(), 5);
    assert!(all_hits.is_match());

    for detection in [
        VirtualToolSummarizerDetection {
            semantic_similarity_hit: false,
            ..all_hits
        },
        VirtualToolSummarizerDetection {
            group_index_tag_hit: false,
            ..all_hits
        },
        VirtualToolSummarizerDetection {
            group_index_field_hit: false,
            ..all_hits
        },
        VirtualToolSummarizerDetection {
            group_name_field_hit: false,
            ..all_hits
        },
        VirtualToolSummarizerDetection {
            summary_field_hit: false,
            ..all_hits
        },
    ] {
        assert_eq!(detection.required_hit_count(), 4);
        assert!(!detection.is_match());
    }
}

#[test]
fn inject_virtual_tool_summarizer_instruction_appends_existing_string_instructions() {
    let mut request = utility_request_with_string_instructions("Keep the reply short.");

    let outcome = inject_virtual_tool_summarizer_instruction(&mut request);

    assert_eq!(
        outcome,
        VirtualToolSummarizerInstructionMutation::Appended
    );
    assert_eq!(
        request.get("instructions"),
        Some(&Value::String(format!(
            "Keep the reply short.\n\n{}",
            VIRTUAL_TOOL_SUMMARIZER_COMPATIBILITY_INSTRUCTION
        )))
    );
}

#[test]
fn inject_virtual_tool_summarizer_instruction_inserts_when_instructions_missing() {
    let mut request = realistic_nested_virtual_tool_request();

    let outcome = inject_virtual_tool_summarizer_instruction(&mut request);

    assert_eq!(outcome, VirtualToolSummarizerInstructionMutation::Inserted);
    assert_eq!(
        request.get("instructions"),
        Some(&Value::String(
            VIRTUAL_TOOL_SUMMARIZER_COMPATIBILITY_INSTRUCTION.to_string()
        ))
    );
}

#[test]
fn inject_virtual_tool_summarizer_instruction_inserts_when_instructions_null() {
    let mut request = realistic_nested_virtual_tool_request();
    request.insert("instructions".to_string(), Value::Null);

    let outcome = inject_virtual_tool_summarizer_instruction(&mut request);

    assert_eq!(outcome, VirtualToolSummarizerInstructionMutation::Inserted);
    assert_eq!(
        request.get("instructions"),
        Some(&Value::String(
            VIRTUAL_TOOL_SUMMARIZER_COMPATIBILITY_INSTRUCTION.to_string()
        ))
    );
}

#[test]
fn inject_virtual_tool_summarizer_instruction_skips_non_string_instructions() {
    let mut request = realistic_nested_virtual_tool_request();
    request.insert(
        "instructions".to_string(),
        document(r#"{"type": "structured", "text": "keep structure"}"#),
    );

    let original = request.get("instructions").cloned();
    let outcome = inject_virtual_tool_summarizer_instruction(&mut request);

    assert_eq!(
        outcome,
        VirtualToolSummarizerInstructionMutation::SkippedNonString
    );
    assert_eq!(request.get("instructions"), original.as_ref());
}

#[test]
fn inject_virtual_tool_summarizer_instruction_is_idempotent_when_present() {
    let mut request = utility_request_with_string_instructions(
        VIRTUAL_TOOL_SUMMARIZER_COMPATIBILITY_INSTRUCTION,
    );

    let outcome = inject_virtual_tool_summarizer_instruction(&mut request);
    let instructions = request
        .get("instructions")
        .and_then(Value::as_str)
        .expect("string instructions");

    assert_eq!(
        outcome,
        VirtualToolSummarizerInstructionMutation::AlreadyPresent
    );
    assert_eq!(
        count_instruction_occurrences(instructions),
        1,
        "compatibility instruction should not be duplicated"
    );
}
