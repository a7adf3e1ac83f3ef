//! Failures of the bridge, with the HTTP status and the public document of each.

use crate::json::{json_view, make_value, member, new_object, object_insert, text_value, Json, Node};
use crate::text::{decimal, decimal_text};
use serde_json::Value;
use vstd::prelude::*;

verus! {

/// A document that reports one error to the caller of the bridge.
#[derive(Debug, Clone)]
pub struct PublicErrorDocument {
    pub error: PublicErrorPayload,
}

/// The fields of a public error.
#[derive(Debug, Clone)]
pub struct PublicErrorPayload {
    pub code: String,
    pub message: String,
    pub error_type: String,
}

/// What went wrong.
#[derive(Debug, Clone)]
pub enum ThreadlineError {
    ResponsesNotReady,
    InvalidResponsesRequest,
    RequestBodyTooLarge,
    InvalidModel,
    UnsupportedReasoningContext,
    PreviousResponseNotFound,
    RetainedSessionConflict,
    RetainedSessionCapacityExceeded,
    UpstreamWebSocketConnectFailed,
    UpstreamWebSocketHandshakeRejected { status: u16 },
    UpstreamWebSocketClosed,
    UpstreamInboundBufferOverflow,
    UpstreamResponseFailed,
    UpstreamErrorEvent,
    UpstreamInvalidJson,
    InternalToolFailed,
    JobNotFound,
    JobsDisabled,
    JobCommandNotAllowed,
    JobCommandFailed,
    JobCancelled,
    UpstreamCredentialsUnavailable,
    UpstreamUrlMissing,
    InvalidServerConfiguration(String),
    InvalidBindHost(String),
}

/// The contents of a [`PublicErrorPayload`].
pub struct PublicError {
    pub code: Seq<char>,
    pub message: Seq<char>,
    pub error_type: Seq<char>,
}

impl View for PublicErrorPayload {
    type V = PublicError;

    open spec fn view(&self) -> PublicError {
        PublicError { code: self.code@, message: self.message@, error_type: self.error_type@ }
    }
}

/// The standard reason phrase of an HTTP status, as `StatusCode::canonical_reason` gives it.
pub uninterp spec fn canonical_reason_view(status: u16) -> Option<Seq<char>>;

/// What the bridge says of an upstream handshake that was answered with an HTTP status, given the
/// reason phrase of the status.
pub open spec fn rejection_message(status: u16, reason: Option<Seq<char>>) -> Seq<char> {
    let opening = "The upstream Codex websocket handshake was rejected with HTTP "@ + decimal_text(
        status as nat,
    );
    match reason {
        Some(phrase) => opening + " "@ + phrase + "."@,
        None => opening + "."@,
    }
}

/// What the bridge says of an upstream handshake that was answered with an HTTP status.
pub open spec fn handshake_rejected_message(status: u16) -> Seq<char> {
    rejection_message(status, canonical_reason_view(status))
}

/// The HTTP status that reports an error.
pub open spec fn status_of(error: ThreadlineError) -> u16 {
    match error {
        ThreadlineError::ResponsesNotReady => 501,
        ThreadlineError::InvalidResponsesRequest => 400,
        ThreadlineError::RequestBodyTooLarge => 413,
        ThreadlineError::InvalidModel => 400,
        ThreadlineError::UnsupportedReasoningContext => 400,
        ThreadlineError::PreviousResponseNotFound => 400,
        ThreadlineError::RetainedSessionConflict => 409,
        ThreadlineError::RetainedSessionCapacityExceeded => 503,
        ThreadlineError::UpstreamWebSocketConnectFailed => 502,
        ThreadlineError::UpstreamWebSocketHandshakeRejected { status } => status,
        ThreadlineError::UpstreamWebSocketClosed => 502,
        ThreadlineError::UpstreamInboundBufferOverflow => 502,
        ThreadlineError::UpstreamResponseFailed => 502,
        ThreadlineError::UpstreamErrorEvent => 502,
        ThreadlineError::UpstreamInvalidJson => 502,
        ThreadlineError::InternalToolFailed => 500,
        ThreadlineError::JobNotFound => 404,
        ThreadlineError::JobsDisabled => 403,
        ThreadlineError::JobCommandNotAllowed => 403,
        ThreadlineError::JobCommandFailed => 500,
        ThreadlineError::JobCancelled => 409,
        ThreadlineError::UpstreamCredentialsUnavailable => 500,
        ThreadlineError::UpstreamUrlMissing => 500,
        ThreadlineError::InvalidServerConfiguration(_) => 500,
        ThreadlineError::InvalidBindHost(_) => 500,
    }
}

/// What the caller of the bridge is told of an error.
pub open spec fn public_error_of(error: ThreadlineError) -> PublicError {
    let (code, message, error_type) = match error {
        ThreadlineError::ResponsesNotReady => (
            "responses_not_ready"@,
            "The /v1/responses bridge is not available yet."@,
            "not_implemented_error"@,
        ),
        ThreadlineError::InvalidResponsesRequest => (
            "invalid_request_error"@,
            "The /v1/responses request body must be a JSON object."@,
            "invalid_request_error"@,
        ),
        ThreadlineError::RequestBodyTooLarge => (
            "request_body_too_large"@,
            "The /v1/responses request body exceeds the configured byte limit."@,
            "invalid_request_error"@,
        ),
        ThreadlineError::InvalidModel => (
            "invalid_model"@,
            "The /v1/responses request must include a supported string model."@,
            "invalid_request_error"@,
        ),
        ThreadlineError::UnsupportedReasoningContext => (
            "unsupported_reasoning_context"@,
            "reasoning.context=all_turns is not supported for this model. The model metadata has use_responses_lite=false."@,
            "invalid_request_error"@,
        ),
        ThreadlineError::PreviousResponseNotFound => (
            "previous_response_not_found"@,
            "Threadline could not find the retained session for that previous_response_id."@,
            "invalid_request_error"@,
        ),
        ThreadlineError::RetainedSessionConflict => (
            "retained_session_conflict"@,
            "The retained session for that previous_response_id is already active."@,
            "conflict_error"@,
        ),
        ThreadlineError::RetainedSessionCapacityExceeded => (
            "retained_session_capacity_exceeded"@,
            "Threadline has no free retained session capacity for another active response."@,
            "service_unavailable_error"@,
        ),
        ThreadlineError::UpstreamWebSocketConnectFailed => (
            "upstream_websocket_connect_failed"@,
            "Threadline could not connect to the upstream Codex websocket."@,
            "bad_gateway_error"@,
        ),
        ThreadlineError::UpstreamWebSocketHandshakeRejected { status } => (
            "upstream_websocket_handshake_rejected"@,
            handshake_rejected_message(status),
            "bad_gateway_error"@,
        ),
        ThreadlineError::UpstreamWebSocketClosed => (
            "upstream_websocket_closed"@,
            "The upstream Codex websocket closed before Threadline finished streaming the response."@,
            "bad_gateway_error"@,
        ),
        ThreadlineError::UpstreamInboundBufferOverflow => (
            "upstream_inbound_buffer_overflow"@,
            "The upstream websocket inbound buffer overflowed."@,
            "server_error"@,
        ),
        ThreadlineError::UpstreamResponseFailed => (
            "upstream_response_failed"@,
            "The upstream response.failed event cannot be streamed as a successful downstream response."@,
            "bad_gateway_error"@,
        ),
        ThreadlineError::UpstreamErrorEvent => (
            "upstream_error_event"@,
            "The upstream websocket emitted an error event."@,
            "bad_gateway_error"@,
        ),
        ThreadlineError::UpstreamInvalidJson => (
            "upstream_invalid_json"@,
            "The upstream websocket emitted malformed JSON."@,
            "bad_gateway_error"@,
        ),
        ThreadlineError::InternalToolFailed => (
            "internal_tool_failed"@,
            "Threadline failed while executing an internal tool."@,
            "internal_server_error"@,
        ),
        ThreadlineError::JobNotFound => (
            "job_not_found"@,
            "Threadline could not find a job with that job_id."@,
            "invalid_request_error"@,
        ),
        ThreadlineError::JobsDisabled => (
            "jobs_disabled"@,
            "Threadline jobs are disabled."@,
            "forbidden_error"@,
        ),
        ThreadlineError::JobCommandNotAllowed => (
            "job_command_not_allowed"@,
            "The requested job command is not allowed by Threadline policy."@,
            "forbidden_error"@,
        ),
        ThreadlineError::JobCommandFailed => (
            "job_command_failed"@,
            "The Threadline job command failed."@,
            "internal_server_error"@,
        ),
        ThreadlineError::JobCancelled => (
            "job_cancelled"@,
            "The Threadline job was cancelled."@,
            "conflict_error"@,
        ),
        ThreadlineError::UpstreamCredentialsUnavailable => (
            "upstream_credentials_unavailable"@,
            "Threadline could not load upstream credentials."@,
            "configuration_error"@,
        ),
        ThreadlineError::UpstreamUrlMissing => (
            "configuration_error"@,
            "Threadline is missing THREADLINE_UPSTREAM_URL for upstream websocket connections."@,
            "configuration_error"@,
        ),
        ThreadlineError::InvalidServerConfiguration(message) => (
            "configuration_error"@,
            message@,
            "configuration_error"@,
        ),
        ThreadlineError::InvalidBindHost(_) => (
            "configuration_error"@,
            "Threadline failed to resolve its configured bind address."@,
            "configuration_error"@,
        ),
    };
    PublicError { code, message, error_type }
}

/// The description of an error in the bridge's own diagnostics.
pub open spec fn description_of(error: ThreadlineError) -> Seq<char> {
    match error {
        ThreadlineError::ResponsesNotReady => "The /v1/responses bridge is not available yet."@,
        ThreadlineError::InvalidResponsesRequest => "The /v1/responses request body was not a valid JSON object."@,
        ThreadlineError::RequestBodyTooLarge => "The /v1/responses request body exceeds the configured byte limit."@,
        ThreadlineError::InvalidModel => "The /v1/responses request must include a supported string model."@,
        ThreadlineError::UnsupportedReasoningContext => "reasoning.context=all_turns is not supported for this model. The model metadata has use_responses_lite=false."@,
        ThreadlineError::PreviousResponseNotFound => "Threadline could not find the retained session for the supplied previous_response_id."@,
        ThreadlineError::RetainedSessionConflict => "The retained session for this previous_response_id is already in use."@,
        ThreadlineError::RetainedSessionCapacityExceeded => "Threadline has no free retained session capacity for another active response."@,
        ThreadlineError::UpstreamWebSocketConnectFailed => "Threadline could not connect to the upstream Codex websocket."@,
        ThreadlineError::UpstreamWebSocketHandshakeRejected { status } => {
            let reason = match canonical_reason_view(status) {
                Some(reason) => reason,
                None => "<unknown status code>"@,
            };
            "The upstream Codex websocket handshake was rejected with HTTP "@ + decimal_text(
                status as nat,
            ) + " "@ + reason + "."@
        },
        ThreadlineError::UpstreamWebSocketClosed => "The upstream Codex websocket closed before Threadline finished streaming the response."@,
        ThreadlineError::UpstreamInboundBufferOverflow => "The upstream websocket inbound buffer overflowed."@,
        ThreadlineError::UpstreamResponseFailed => "The upstream response.failed event cannot be streamed as a successful downstream response."@,
        ThreadlineError::UpstreamErrorEvent => "The upstream websocket emitted an error event."@,
        ThreadlineError::UpstreamInvalidJson => "The upstream websocket emitted malformed JSON."@,
        ThreadlineError::InternalToolFailed => "Threadline failed while executing an internal tool."@,
        ThreadlineError::JobNotFound => "Threadline could not find a job with that job_id."@,
        ThreadlineError::JobsDisabled => "Threadline jobs are disabled."@,
        ThreadlineError::JobCommandNotAllowed => "The requested job command is not allowed by Threadline policy."@,
        ThreadlineError::JobCommandFailed => "The Threadline job command failed."@,
        ThreadlineError::JobCancelled => "The Threadline job was cancelled."@,
        ThreadlineError::UpstreamCredentialsUnavailable => "Threadline could not load upstream credentials."@,
        ThreadlineError::UpstreamUrlMissing => "Threadline is missing THREADLINE_UPSTREAM_URL for upstream websocket connections."@,
        ThreadlineError::InvalidServerConfiguration(message) => message@,
        ThreadlineError::InvalidBindHost(host) => "Invalid bind host: "@ + host@,
    }
}

/// The JSON document that carries a public error.
pub open spec fn error_document_json(error: PublicError) -> Json {
    Json::Object(
        Map::empty().insert(
            "error"@,
            Json::Object(
                Map::empty().insert("code"@, Json::Str(error.code)).insert(
                    "message"@,
                    Json::Str(error.message),
                ).insert("type"@, Json::Str(error.error_type)),
            ),
        ),
    )
}

/// Wraps `axum::http::StatusCode::from_u16` and `canonical_reason`: the standard reason phrase,
/// when the number is a status that has one.
#[verifier::external_body]
fn canonical_reason(status: u16) -> (reason: Option<&'static str>)
    ensures
        crate::text::optional_str(reason) == canonical_reason_view(status),
{
    axum::http::StatusCode::from_u16(status).ok().and_then(|code| code.canonical_reason())
}

fn borrowed_public_error(code: &str, message: &str, error_type: &str) -> (payload:
    PublicErrorPayload)
    ensures
        payload@ == (PublicError { code: code@, message: message@, error_type: error_type@ }),
{
    PublicErrorPayload {
        code: code.to_owned(),
        message: message.to_owned(),
        error_type: error_type.to_owned(),
    }
}

/// What the bridge says of an upstream handshake that was answered with an HTTP status, given the
/// reason phrase of the status.
pub fn handshake_rejection_text(status: u16, reason: Option<&str>) -> (message: String)
    ensures
        message@ == rejection_message(status, crate::text::optional_str(reason)),
{
    let mut message = "The upstream Codex websocket handshake was rejected with HTTP ".to_owned();
    message.append(decimal(status as u64).as_str());
    if let Some(phrase) = reason {
        message.append(" ");
        message.append(phrase);
    }
    message.append(".");
    message
}

impl PublicErrorDocument {
    /// The document as JSON.
    pub fn to_json(&self) -> (document: Value)
        ensures
            json_view(document) == error_document_json(self.error@),
    {
        let mut payload = new_object();
        object_insert(&mut payload, "code", text_value(self.error.code.as_str()));
        object_insert(&mut payload, "message", text_value(self.error.message.as_str()));
        object_insert(&mut payload, "type", text_value(self.error.error_type.as_str()));
        let mut document = new_object();
        object_insert(&mut document, "error", make_value(Node::Object(payload)));
        make_value(Node::Object(document))
    }
}

impl ThreadlineError {
    /// Whether the upstream connection can be replaced after this error.
    pub fn is_upstream_recoverable_close(&self) -> (recoverable: bool)
        ensures
            recoverable == (self is UpstreamWebSocketClosed
                || self is UpstreamWebSocketConnectFailed),
    {
        match self {
            ThreadlineError::UpstreamWebSocketClosed => true,
            ThreadlineError::UpstreamWebSocketConnectFailed => true,
            _ => false,
        }
    }

    /// The HTTP status that reports this error.
    pub fn status_code(&self) -> (status: u16)
        ensures
            status == status_of(*self),
    {
        match self {
            ThreadlineError::ResponsesNotReady => 501,
            ThreadlineError::InvalidResponsesRequest => 400,
            ThreadlineError::RequestBodyTooLarge => 413,
            ThreadlineError::InvalidModel => 400,
            ThreadlineError::UnsupportedReasoningContext => 400,
            ThreadlineError::PreviousResponseNotFound => 400,
            ThreadlineError::RetainedSessionConflict => 409,
            ThreadlineError::RetainedSessionCapacityExceeded => 503,
            ThreadlineError::UpstreamWebSocketConnectFailed => 502,
            ThreadlineError::UpstreamWebSocketHandshakeRejected { status } => *status,
            ThreadlineError::UpstreamWebSocketClosed => 502,
            ThreadlineError::UpstreamInboundBufferOverflow => 502,
            ThreadlineError::UpstreamResponseFailed => 502,
            ThreadlineError::UpstreamErrorEvent => 502,
            ThreadlineError::UpstreamInvalidJson => 502,
            ThreadlineError::InternalToolFailed => 500,
            ThreadlineError::JobNotFound => 404,
            ThreadlineError::JobsDisabled => 403,
            ThreadlineError::JobCommandNotAllowed => 403,
            ThreadlineError::JobCommandFailed => 500,
            ThreadlineError::JobCancelled => 409,
            ThreadlineError::UpstreamCredentialsUnavailable => 500,
            ThreadlineError::UpstreamUrlMissing => 500,
            ThreadlineError::InvalidServerConfiguration(_) => 500,
            ThreadlineError::InvalidBindHost(_) => 500,
        }
    }

    /// What the caller of the bridge is told of this error.
    pub fn public_error(&self) -> (payload: PublicErrorPayload)
        ensures
            payload@ == public_error_of(*self),
    {
        match self {
            ThreadlineError::ResponsesNotReady => borrowed_public_error(
                "responses_not_ready",
                "The /v1/responses bridge is not available yet.",
                "not_implemented_error",
            ),
            ThreadlineError::InvalidResponsesRequest => borrowed_public_error(
                "invalid_request_error",
                "The /v1/responses request body must be a JSON object.",
                "invalid_request_error",
            ),
            ThreadlineError::RequestBodyTooLarge => borrowed_public_error(
                "request_body_too_large",
                "The /v1/responses request body exceeds the configured byte limit.",
                "invalid_request_error",
            ),
            ThreadlineError::InvalidModel => borrowed_public_error(
                "invalid_model",
                "The /v1/responses request must include a supported string model.",
                "invalid_request_error",
            ),
            ThreadlineError::UnsupportedReasoningContext => borrowed_public_error(
                "unsupported_reasoning_context",
                "reasoning.context=all_turns is not supported for this model. The model metadata has use_responses_lite=false.",
                "invalid_request_error",
            ),
            ThreadlineError::PreviousResponseNotFound => borrowed_public_error(
                "previous_response_not_found",
                "Threadline could not find the retained session for that previous_response_id.",
                "invalid_request_error",
            ),
            ThreadlineError::RetainedSessionConflict => borrowed_public_error(
                "retained_session_conflict",
                "The retained session for that previous_response_id is already active.",
                "conflict_error",
            ),
            ThreadlineError::RetainedSessionCapacityExceeded => borrowed_public_error(
                "retained_session_capacity_exceeded",
                "Threadline has no free retained session capacity for another active response.",
                "service_unavailable_error",
            ),
            ThreadlineError::UpstreamWebSocketConnectFailed => borrowed_public_error(
                "upstream_websocket_connect_failed",
                "Threadline could not connect to the upstream Codex websocket.",
                "bad_gateway_error",
            ),
            ThreadlineError::UpstreamWebSocketHandshakeRejected { status } => {
                let message = handshake_rejection_text(*status, canonical_reason(*status));
                borrowed_public_error("upstream_websocket_handshake_rejected", message.as_str(), "bad_gateway_error")
            },
            ThreadlineError::UpstreamWebSocketClosed => borrowed_public_error(
                "upstream_websocket_closed",
                "The upstream Codex websocket closed before Threadline finished streaming the response.",
                "bad_gateway_error",
            ),
            ThreadlineError::UpstreamInboundBufferOverflow => borrowed_public_error(
                "upstream_inbound_buffer_overflow",
                "The upstream websocket inbound buffer overflowed.",
                "server_error",
            ),
            ThreadlineError::UpstreamResponseFailed => borrowed_public_error(
                "upstream_response_failed",
                "The upstream response.failed event cannot be streamed as a successful downstream response.",
                "bad_gateway_error",
            ),
            ThreadlineError::UpstreamErrorEvent => borrowed_public_error(
                "upstream_error_event",
                "The upstream websocket emitted an error event.",
                "bad_gateway_error",
            ),
            ThreadlineError::UpstreamInvalidJson => borrowed_public_error(
                "upstream_invalid_json",
                "The upstream websocket emitted malformed JSON.",
                "bad_gateway_error",
            ),
            ThreadlineError::InternalToolFailed => borrowed_public_error(
                "internal_tool_failed",
                "Threadline failed while executing an internal tool.",
                "internal_server_error",
            ),
            ThreadlineError::JobNotFound => borrowed_public_error(
                "job_not_found",
                "Threadline could not find a job with that job_id.",
                "invalid_request_error",
            ),
            ThreadlineError::JobsDisabled => borrowed_public_error(
                "jobs_disabled",
                "Threadline jobs are disabled.",
                "forbidden_error",
            ),
            ThreadlineError::JobCommandNotAllowed => borrowed_public_error(
                "job_command_not_allowed",
                "The requested job command is not allowed by Threadline policy.",
                "forbidden_error",
            ),
            ThreadlineError::JobCommandFailed => borrowed_public_error(
                "job_command_failed",
                "The Threadline job command failed.",
                "internal_server_error",
            ),
            ThreadlineError::JobCancelled => borrowed_public_error(
                "job_cancelled",
                "The Threadline job was cancelled.",
                "conflict_error",
            ),
            ThreadlineError::UpstreamCredentialsUnavailable => borrowed_public_error(
                "upstream_credentials_unavailable",
                "Threadline could not load upstream credentials.",
                "configuration_error",
            ),
            ThreadlineError::UpstreamUrlMissing => borrowed_public_error(
                "configuration_error",
                "Threadline is missing THREADLINE_UPSTREAM_URL for upstream websocket connections.",
                "configuration_error",
            ),
            ThreadlineError::InvalidServerConfiguration(message) => borrowed_public_error(
                "configuration_error",
                message.as_str(),
                "configuration_error",
            ),
            ThreadlineError::InvalidBindHost(_) => borrowed_public_error(
                "configuration_error",
                "Threadline failed to resolve its configured bind address.",
                "configuration_error",
            ),
        }
    }

    /// The document that reports this error.
    pub fn public_error_document(&self) -> (document: PublicErrorDocument)
        ensures
            document.error@ == public_error_of(*self),
    {
        PublicErrorDocument { error: self.public_error() }
    }

    /// The description of this error in the bridge's own diagnostics.
    pub fn description(&self) -> (text: String)
        ensures
            text@ == description_of(*self),
    {
        match self {
            ThreadlineError::ResponsesNotReady => "The /v1/responses bridge is not available yet.".to_owned(),
            ThreadlineError::InvalidResponsesRequest => "The /v1/responses request body was not a valid JSON object.".to_owned(),
            ThreadlineError::RequestBodyTooLarge => "The /v1/responses request body exceeds the configured byte limit.".to_owned(),
            ThreadlineError::InvalidModel => "The /v1/responses request must include a supported string model.".to_owned(),
            ThreadlineError::UnsupportedReasoningContext => "reasoning.context=all_turns is not supported for this model. The model metadata has use_responses_lite=false.".to_owned(),
            ThreadlineError::PreviousResponseNotFound => "Threadline could not find the retained session for the supplied previous_response_id.".to_owned(),
            ThreadlineError::RetainedSessionConflict => "The retained session for this previous_response_id is already in use.".to_owned(),
            ThreadlineError::RetainedSessionCapacityExceeded => "Threadline has no free retained session capacity for another active response.".to_owned(),
            ThreadlineError::UpstreamWebSocketConnectFailed => "Threadline could not connect to the upstream Codex websocket.".to_owned(),
            ThreadlineError::UpstreamWebSocketHandshakeRejected { status } => {
                let mut text =
                    "The upstream Codex websocket handshake was rejected with HTTP ".to_owned();
                text.append(decimal(*status as u64).as_str());
                text.append(" ");
                match canonical_reason(*status) {
                    Some(reason) => text.append(reason),
                    None => text.append("<unknown status code>"),
                }
                text.append(".");
                text
            },
            ThreadlineError::UpstreamWebSocketClosed => "The upstream Codex websocket closed before Threadline finished streaming the response.".to_owned(),
            ThreadlineError::UpstreamInboundBufferOverflow => "The upstream websocket inbound buffer overflowed.".to_owned(),
            ThreadlineError::UpstreamResponseFailed => "The upstream response.failed event cannot be streamed as a successful downstream response.".to_owned(),
            ThreadlineError::UpstreamErrorEvent => "The upstream websocket emitted an error event.".to_owned(),
            ThreadlineError::UpstreamInvalidJson => "The upstream websocket emitted malformed JSON.".to_owned(),
            ThreadlineError::InternalToolFailed => "Threadline failed while executing an internal tool.".to_owned(),
            ThreadlineError::JobNotFound => "Threadline could not find a job with that job_id.".to_owned(),
            ThreadlineError::JobsDisabled => "Threadline jobs are disabled.".to_owned(),
            ThreadlineError::JobCommandNotAllowed => "The requested job command is not allowed by Threadline policy.".to_owned(),
            ThreadlineError::JobCommandFailed => "The Threadline job command failed.".to_owned(),
            ThreadlineError::JobCancelled => "The Threadline job was cancelled.".to_owned(),
            ThreadlineError::UpstreamCredentialsUnavailable => "Threadline could not load upstream credentials.".to_owned(),
            ThreadlineError::UpstreamUrlMissing => "Threadline is missing THREADLINE_UPSTREAM_URL for upstream websocket connections.".to_owned(),
            ThreadlineError::InvalidServerConfiguration(message) => message.clone(),
            ThreadlineError::InvalidBindHost(host) => crate::text::joined("Invalid bind host: ", host.as_str()),
        }
    }
}

/// Every error is reported with the code, the message, the type and the status that callers go by.
pub proof fn law_errors_are_reported_by_code(error: ThreadlineError)
    ensures
        (
            public_error_of(error).code,
            public_error_of(error).message,
            public_error_of(error).error_type,
            status_of(error),
        ) == match error {
            ThreadlineError::ResponsesNotReady => (
                "responses_not_ready"@,
                "The /v1/responses bridge is not available yet."@,
                "not_implemented_error"@,
                501u16,
            ),
            ThreadlineError::InvalidResponsesRequest => (
                "invalid_request_error"@,
                "The /v1/responses request body must be a JSON object."@,
                "invalid_request_error"@,
                400u16,
            ),
            ThreadlineError::RequestBodyTooLarge => (
                "request_body_too_large"@,
                "The /v1/responses request body exceeds the configured byte limit."@,
                "invalid_request_error"@,
                413u16,
            ),
            ThreadlineError::InvalidModel => (
                "invalid_model"@,
                "The /v1/responses request must include a supported string model."@,
                "invalid_request_error"@,
                400u16,
            ),
            ThreadlineError::UnsupportedReasoningContext => (
                "unsupported_reasoning_context"@,
                "reasoning.context=all_turns is not supported for this model. The model metadata has use_responses_lite=false."@,
                "invalid_request_error"@,
                400u16,
            ),
            ThreadlineError::PreviousResponseNotFound => (
                "previous_response_not_found"@,
                "Threadline could not find the retained session for that previous_response_id."@,
                "invalid_request_error"@,
                400u16,
            ),
            ThreadlineError::RetainedSessionConflict => (
                "retained_session_conflict"@,
                "The retained session for that previous_response_id is already active."@,
                "conflict_error"@,
                409u16,
            ),
            ThreadlineError::RetainedSessionCapacityExceeded => (
                "retained_session_capacity_exceeded"@,
                "Threadline has no free retained session capacity for another active response."@,
                "service_unavailable_error"@,
                503u16,
            ),
            ThreadlineError::UpstreamWebSocketConnectFailed => (
                "upstream_websocket_connect_failed"@,
                "Threadline could not connect to the upstream Codex websocket."@,
                "bad_gateway_error"@,
                502u16,
            ),
            ThreadlineError::UpstreamWebSocketHandshakeRejected { status } => (
                "upstream_websocket_handshake_rejected"@,
                handshake_rejected_message(status),
                "bad_gateway_error"@,
                status,
            ),
            ThreadlineError::UpstreamWebSocketClosed => (
                "upstream_websocket_closed"@,
                "The upstream Codex websocket closed before Threadline finished streaming the response."@,
                "bad_gateway_error"@,
                502u16,
            ),
            ThreadlineError::UpstreamInboundBufferOverflow => (
                "upstream_inbound_buffer_overflow"@,
                "The upstream websocket inbound buffer overflowed."@,
                "server_error"@,
                502u16,
            ),
            ThreadlineError::UpstreamResponseFailed => (
                "upstream_response_failed"@,
                "The upstream response.failed event cannot be streamed as a successful downstream response."@,
                "bad_gateway_error"@,
                502u16,
            ),
            ThreadlineError::UpstreamErrorEvent => (
                "upstream_error_event"@,
                "The upstream websocket emitted an error event."@,
                "bad_gateway_error"@,
                502u16,
            ),
            ThreadlineError::UpstreamInvalidJson => (
                "upstream_invalid_json"@,
                "The upstream websocket emitted malformed JSON."@,
                "bad_gateway_error"@,
                502u16,
            ),
            ThreadlineError::InternalToolFailed => (
                "internal_tool_failed"@,
                "Threadline failed while executing an internal tool."@,
                "internal_server_error"@,
                500u16,
            ),
            ThreadlineError::JobNotFound => (
                "job_not_found"@,
                "Threadline could not find a job with that job_id."@,
                "invalid_request_error"@,
                404u16,
            ),
            ThreadlineError::JobsDisabled => (
                "jobs_disabled"@,
                "Threadline jobs are disabled."@,
                "forbidden_error"@,
                403u16,
            ),
            ThreadlineError::JobCommandNotAllowed => (
                "job_command_not_allowed"@,
                "The requested job command is not allowed by Threadline policy."@,
                "forbidden_error"@,
                403u16,
            ),
            ThreadlineError::JobCommandFailed => (
                "job_command_failed"@,
                "The Threadline job command failed."@,
                "internal_server_error"@,
                500u16,
            ),
            ThreadlineError::JobCancelled => (
                "job_cancelled"@,
                "The Threadline job was cancelled."@,
                "conflict_error"@,
                409u16,
            ),
            ThreadlineError::UpstreamCredentialsUnavailable => (
                "upstream_credentials_unavailable"@,
                "Threadline could not load upstream credentials."@,
                "configuration_error"@,
                500u16,
            ),
            ThreadlineError::UpstreamUrlMissing => (
                "configuration_error"@,
                "Threadline is missing THREADLINE_UPSTREAM_URL for upstream websocket connections."@,
                "configuration_error"@,
                500u16,
            ),
            ThreadlineError::InvalidServerConfiguration(message) => (
                "configuration_error"@,
                message@,
                "configuration_error"@,
                500u16,
            ),
            ThreadlineError::InvalidBindHost(_) => (
                "configuration_error"@,
                "Threadline failed to resolve its configured bind address."@,
                "configuration_error"@,
                500u16,
            ),
        },
{
}

/// The document for an error carries its code, its message and its type.
pub proof fn law_error_documents_carry_the_error(error: PublicError)
    ensures
        error_document_json(error) matches Json::Object(document) && {
            &&& member(document, "error"@) matches Some(Json::Object(members)) && {
                &&& member(members, "code"@) == Some(Json::Str(error.code))
                &&& member(members, "message"@) == Some(Json::Str(error.message))
                &&& member(members, "type"@) == Some(Json::Str(error.error_type))
            }
        },
{
    reveal_strlit("code");
    reveal_strlit("message");
    reveal_strlit("type");
    assert("code"@.len() == 4 && "code"@[0] == 'c');
    assert("type"@.len() == 4 && "type"@[0] == 't');
    assert("message"@.len() == 7);
}

/// An upstream that refused a connection is reported with the status that it gave, in digits, and
/// the reason of that status where it has one.
pub proof fn law_refused_connections_are_reported_with_their_status(status: u16)
    ensures
        ({
            let message = public_error_of(
                ThreadlineError::UpstreamWebSocketHandshakeRejected { status },
            ).message;
            let opening = "The upstream Codex websocket handshake was rejected with HTTP "@
                + decimal_text(status as nat);
            message == (match canonical_reason_view(status) {
                Some(reason) => opening + " "@ + reason + "."@,
                None => opening + "."@,
            })
        }),
{
}

} // verus!
