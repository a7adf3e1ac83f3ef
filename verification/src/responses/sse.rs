//! The server-sent events that carry a response to the client.

use crate::errors::{error_document_json, public_error_of, ThreadlineError};
use crate::json::{
    array_of, field, field_of, json_array, json_field, json_object, json_str, json_view, make_value,
    new_object, no_members, object_insert, object_of, object_view, open_value, optional_field,
    optional_json, serialized_json, text_value, value_text, Json, JsonNumber, Node, ValueRef,
};
use crate::text::{decimal_text, optional_text};
use serde_json::Value;
use vstd::prelude::*;

verus! {

/// One server-sent event.
pub open spec fn sse_frame(event: Seq<char>, payload: Seq<char>) -> Seq<char> {
    "event: "@ + event + "\ndata: "@ + payload + "\n\n"@
}

/// The server-sent event that carries a document.
pub open spec fn sse_json(event: Seq<char>, document: Json) -> Seq<char> {
    sse_frame(event, serialized_json(document))
}

/// The line that ends the stream.
pub open spec fn sse_done() -> Seq<char> {
    "data: [DONE]\n\n"@
}

/// The text of a string, a number or a truth value.
pub open spec fn scalar_text(value: Json) -> Option<Seq<char>> {
    match value {
        Json::Str(text) => Some(text),
        Json::Number(JsonNumber::Unsigned(number)) => Some(decimal_text(number as nat)),
        Json::Number(JsonNumber::Other(written)) => Some(written),
        Json::Bool(flag) => Some(
            if flag {
                "true"@
            } else {
                "false"@
            },
        ),
        _ => None,
    }
}

/// The text of a scalar that may be absent.
pub open spec fn optional_scalar(value: Option<Json>) -> Option<Seq<char>> {
    match value {
        Some(document) => scalar_text(document),
        None => None,
    }
}

/// `members` with a text under `key`, when there is one.
pub open spec fn with_optional_text(
    members: Map<Seq<char>, Json>,
    key: Seq<char>,
    text: Option<Seq<char>>,
) -> Map<Seq<char>, Json> {
    match text {
        Some(value) => members.insert(key, Json::Str(value)),
        None => members,
    }
}

/// `members` with a document under `key`, when there is one.
pub open spec fn with_optional(
    members: Map<Seq<char>, Json>,
    key: Seq<char>,
    document: Option<Json>,
) -> Map<Seq<char>, Json> {
    match document {
        Some(value) => members.insert(key, value),
        None => members,
    }
}

/// A document that is an object.
pub open spec fn only_object(document: Option<Json>) -> Option<Json> {
    match json_object(document) {
        Some(members) => Some(Json::Object(members)),
        None => None,
    }
}

/// A document that is an array.
pub open spec fn only_array(document: Option<Json>) -> Option<Json> {
    match json_array(document) {
        Some(items) => Some(Json::Array(items)),
        None => None,
    }
}

/// What the client is shown of a terminal event's response: its id, model, usage and output, and
/// the given status.
pub open spec fn terminal_response(payload: Json, status: Seq<char>) -> Map<Seq<char>, Json> {
    let source = json_field(payload, "response"@);
    with_optional(
        with_optional(
            with_optional_text(
                with_optional_text(
                    no_members(),
                    "id"@,
                    optional_scalar(optional_field(source, "id"@)),
                ),
                "model"@,
                optional_scalar(optional_field(source, "model"@)),
            ),
            "usage"@,
            only_object(optional_field(source, "usage"@)),
        ),
        "output"@,
        only_array(optional_field(source, "output"@)),
    ).insert("status"@, Json::Str(status))
}

/// An error with a code and a message.
pub open spec fn error_json(code: Seq<char>, message: Seq<char>) -> Json {
    Json::Object(
        no_members().insert("code"@, Json::Str(code)).insert("message"@, Json::Str(message)),
    )
}

/// An event of a given type that carries a response.
pub open spec fn response_event(event_type: &str, response: Map<Seq<char>, Json>) -> Json {
    Json::Object(
        no_members().insert("type"@, json_str(event_type)).insert(
            "response"@,
            Json::Object(response),
        ),
    )
}

/// `text`, or `fallback` when there is none.
pub open spec fn text_or(text: Option<Seq<char>>, fallback: Seq<char>) -> Seq<char> {
    match text {
        Some(value) => value,
        None => fallback,
    }
}

/// The `response.failed` document that the client gets for a failure.
pub open spec fn failed_document(payload: Json) -> Json {
    let fallback = public_error_of(ThreadlineError::UpstreamResponseFailed);
    let error = json_field(payload, "error"@);
    response_event(
        "response.failed",
        terminal_response(payload, "failed"@).insert(
            "error"@,
            error_json(
                text_or(optional_scalar(optional_field(error, "code"@)), fallback.code),
                text_or(optional_scalar(optional_field(error, "message"@)), fallback.message),
            ),
        ),
    )
}

/// The event that tells the client of a failure.
pub open spec fn sse_failed(payload: Json) -> Seq<char> {
    sse_json("response.failed"@, failed_document(payload))
}

/// Why a response is incomplete, when the event says so.
pub open spec fn incomplete_reason(payload: Json) -> Option<Seq<char>> {
    optional_scalar(
        optional_field(
            optional_field(json_field(payload, "response"@), "incomplete_details"@),
            "reason"@,
        ),
    )
}

/// The `response.incomplete` document that the client gets.
pub open spec fn incomplete_document(payload: Json) -> Json {
    let response = terminal_response(payload, "incomplete"@);
    response_event(
        "response.incomplete",
        match incomplete_reason(payload) {
            Some(reason) => response.insert(
                "incomplete_details"@,
                Json::Object(no_members().insert("reason"@, Json::Str(reason))),
            ),
            None => response,
        },
    )
}

/// The event that tells the client that a response is incomplete.
pub open spec fn sse_incomplete(payload: Json) -> Seq<char> {
    sse_json("response.incomplete"@, incomplete_document(payload))
}

/// The event that reports an error of the bridge.
pub open spec fn sse_error(error: ThreadlineError) -> Seq<char> {
    sse_json("error"@, error_document_json(public_error_of(error)))
}

/// One server-sent event.
pub fn sse_payload_chunk(event: &str, payload: &str) -> (chunk: String)
    ensures
        chunk@ == sse_frame(event@, payload@),
{
    let mut chunk = "event: ".to_owned();
    chunk.append(event);
    chunk.append("\ndata: ");
    chunk.append(payload);
    chunk.append("\n\n");
    chunk
}

/// The server-sent event that carries a value.
pub fn sse_json_chunk(event: &str, payload: &Value) -> (chunk: String)
    ensures
        chunk@ == sse_json(event@, json_view(*payload)),
{
    sse_payload_chunk(event, value_text(payload).as_str())
}

/// The line that ends the stream.
pub fn sse_done_chunk() -> (chunk: String)
    ensures
        chunk@ == sse_done(),
{
    "data: [DONE]\n\n".to_owned()
}

/// The text of a string, a number or a truth value.
pub fn safe_scalar_field(value: &Value) -> (text: Option<String>)
    ensures
        optional_text(text) == scalar_text(json_view(*value)),
{
    match open_value(value) {
        ValueRef::Str(text) => Some(text.clone()),
        ValueRef::Number => Some(value_text(value)),
        ValueRef::Bool(flag) => Some(
            if flag {
                "true".to_owned()
            } else {
                "false".to_owned()
            },
        ),
        _ => None,
    }
}

/// The text of a scalar that may be absent.
pub fn scalar_of(value: Option<&Value>) -> (text: Option<String>)
    ensures
        optional_text(text) == optional_scalar(optional_json(value)),
{
    match value {
        Some(inner) => safe_scalar_field(inner),
        None => None,
    }
}

fn insert_optional_text(
    members: &mut serde_json::Map<String, Value>,
    key: &str,
    text: Option<String>,
)
    ensures
        object_view(*final(members)) == with_optional_text(
            object_view(*old(members)),
            key@,
            optional_text(text),
        ),
{
    if let Some(value) = text {
        object_insert(members, key, text_value(value.as_str()));
    }
}

fn sanitized_terminal_response(payload: &Value, status: &str) -> (response: serde_json::Map<
    String,
    Value,
>)
    ensures
        object_view(response) == terminal_response(json_view(*payload), status@),
{
    let source = field(payload, "response");
    let mut response = new_object();
    insert_optional_text(&mut response, "id", scalar_of(field_of(source, "id")));
    insert_optional_text(&mut response, "model", scalar_of(field_of(source, "model")));
    if let Some(usage) = object_of(field_of(source, "usage")) {
        object_insert(&mut response, "usage", make_value(Node::Object(usage.clone())));
    }
    if let Some(output) = array_of(field_of(source, "output")) {
        object_insert(
            &mut response,
            "output",
            make_value(Node::Array(crate::tools::clone_values(output))),
        );
    }
    object_insert(&mut response, "status", text_value(status));
    response
}

/// An error with a code and a message, as JSON.
pub fn error_value(code: &str, message: &str) -> (value: Value)
    ensures
        json_view(value) == error_json(code@, message@),
{
    let mut error = new_object();
    object_insert(&mut error, "code", text_value(code));
    object_insert(&mut error, "message", text_value(message));
    make_value(Node::Object(error))
}

fn response_event_value(event_type: &str, response: serde_json::Map<String, Value>) -> (value:
    Value)
    ensures
        json_view(value) == response_event(event_type, object_view(response)),
{
    let mut event = new_object();
    object_insert(&mut event, "type", text_value(event_type));
    object_insert(&mut event, "response", make_value(Node::Object(response)));
    make_value(Node::Object(event))
}

/// The event that tells the client of a failure.
pub fn sse_terminal_response_failed_chunk(payload: &Value) -> (chunk: String)
    ensures
        chunk@ == sse_failed(json_view(*payload)),
{
    let fallback = ThreadlineError::UpstreamResponseFailed.public_error();
    let error = field(payload, "error");
    let code = match scalar_of(field_of(error, "code")) {
        Some(code) => code,
        None => fallback.code,
    };
    let message = match scalar_of(field_of(error, "message")) {
        Some(message) => message,
        None => fallback.message,
    };
    let mut response = sanitized_terminal_response(payload, "failed");
    object_insert(&mut response, "error", error_value(code.as_str(), message.as_str()));
    sse_json_chunk("response.failed", &response_event_value("response.failed", response))
}

/// The event that tells the client that a response is incomplete.
pub fn sse_terminal_response_incomplete_chunk(payload: &Value) -> (chunk: String)
    ensures
        chunk@ == sse_incomplete(json_view(*payload)),
{
    let mut response = sanitized_terminal_response(payload, "incomplete");
    let reason = scalar_of(
        field_of(field_of(field(payload, "response"), "incomplete_details"), "reason"),
    );
    if let Some(reason) = reason {
        let mut details = new_object();
        object_insert(&mut details, "reason", text_value(reason.as_str()));
        object_insert(&mut response, "incomplete_details", make_value(Node::Object(details)));
    }
    sse_json_chunk("response.incomplete", &response_event_value("response.incomplete", response))
}

/// The event that reports an error of the bridge.
pub fn sse_error_chunk(error: &ThreadlineError) -> (chunk: String)
    ensures
        chunk@ == sse_error(*error),
{
    sse_json_chunk("error", &error.public_error_document().to_json())
}

/// A failure that the client sees always carries a code and a message, and its status is `failed`.
pub proof fn law_failures_carry_code_and_message(payload: Json)
    ensures
        ({
            let response = json_field(failed_document(payload), "response"@);
            &&& optional_field(response, "status"@) == Some(json_str("failed"))
            &&& optional_field(optional_field(response, "error"@), "code"@) matches Some(Json::Str(_))
            &&& optional_field(optional_field(response, "error"@), "message"@) matches Some(
                Json::Str(_),
            )
        }),
{
    reveal_strlit("type");
    reveal_strlit("response");
    reveal_strlit("status");
    reveal_strlit("error");
    reveal_strlit("code");
    reveal_strlit("message");
    assert("type"@.len() == 4 && "response"@.len() == 8);
    assert("status"@.len() == 6 && "error"@.len() == 5);
    assert("code"@.len() == 4 && "message"@.len() == 7);
}

} // verus!
