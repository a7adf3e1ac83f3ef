use serde_json::Value;
use threadline::errors::ThreadlineError;
use threadline::tools::{
    build_followup_input, event_contains_internal_tool_name, inject_internal_tools,
    internal_tool_definitions, is_internal_tool_name, InternalToolCall, PendingInternalToolOutput,
};

fn document(text: &str) -> Value {
    serde_json::from_str(text).expect("document")
}

fn names(tools: &Value) -> Vec<String> {
    tools
        .as_array()
        .expect("tools")
        .iter()
        .map(|tool| tool["name"].as_str().unwrap_or("").to_string())
        .collect()
}

#[test]
fn internal_tools_are_added_once() {
    let mut request = document(
        r#"{"tools": [{"type": "function", "name": "search"}, {"name": "threadline_echo", "own": true}]}"#,
    )
    .as_object()
    .expect("object")
    .clone();
    inject_internal_tools(&mut request);
    let once = names(&request["tools"]);
    assert_eq!(
        once,
        vec![
            "search",
            "threadline_echo",
            "threadline_start_job",
            "threadline_poll_job",
            "threadline_read_job_output",
            "threadline_get_job_result",
            "threadline_cancel_job",
        ]
    );
    assert_eq!(request["tools"][1]["own"], true);
    inject_internal_tools(&mut request);
    assert_eq!(names(&request["tools"]), once);

    let mut bare = serde_json::Map::new();
    inject_internal_tools(&mut bare);
    assert_eq!(
        bare["tools"],
        Value::Array(internal_tool_definitions())
    );
}

#[test]
fn internal_tools_are_told_by_their_name() {
    assert!(is_internal_tool_name("threadline_echo"));
    assert!(!is_internal_tool_name("echo_threadline_"));
    assert!(event_contains_internal_tool_name(&document(
        r#"{"deep": [{"item": {"tool_name": "threadline_x"}}]}"#
    )));
    assert!(!event_contains_internal_tool_name(&document(
        r#"{"title": "threadline_x", "name": {"value": "threadline_x"}}"#
    )));
}

#[test]
fn tool_calls_are_read_from_finished_items() {
    let event = |item: &str| {
        document(&format!(
            r#"{{"type": "response.output_item.done", "item": {item}}}"#
        ))
    };
    let call = InternalToolCall::from_event(&event(
        r#"{"type": "function_call", "name": "threadline_echo", "call_id": "c", "arguments": "{\"value\": 1}"}"#,
    ))
    .expect("valid")
    .expect("call");
    assert_eq!(call.name, "threadline_echo");
    assert_eq!(call.arguments["value"], 1);

    let without_arguments = InternalToolCall::from_event(&event(
        r#"{"type": "function_call", "name": "threadline_echo", "call_id": "c"}"#,
    ))
    .expect("valid")
    .expect("call");
    assert_eq!(without_arguments.arguments, document("{}"));

    for item in [
        r#"{"type": "function_call", "name": "search", "call_id": "c"}"#,
        r#"{"type": "message", "name": "threadline_echo"}"#,
        r#"{"type": "function_call"}"#,
    ] {
        assert!(InternalToolCall::from_event(&event(item))
            .expect("valid")
            .is_none());
    }
    for item in [
        r#"{"type": "function_call", "name": "threadline_echo"}"#,
        r#"{"type": "function_call", "name": "threadline_echo", "call_id": "c", "arguments": "{"}"#,
    ] {
        assert!(matches!(
            InternalToolCall::from_event(&event(item)),
            Err(ThreadlineError::InternalToolFailed)
        ));
    }
}

#[test]
fn outputs_become_the_input_of_a_followup() {
    let outputs = vec![
        PendingInternalToolOutput::new("a".to_string(), "1".to_string()),
        PendingInternalToolOutput::new("b".to_string(), "2".to_string()),
    ];
    assert_eq!(
        build_followup_input(outputs),
        document(
            r#"[{"type": "function_call_output", "call_id": "a", "output": "1"}, {"type": "function_call_output", "call_id": "b", "output": "2"}]"#
        )
    );
}
