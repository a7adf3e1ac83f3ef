//! The translation of an upstream event stream into the client's event stream.
//!
//! [`ResponseStream`] is the state of one translation. Its caller receives upstream messages, runs
//! the bridge's tools and sends messages upstream; each method takes what happened and returns what
//! is to be done next.

use crate::errors::{public_error_of, ThreadlineError};
use crate::json::{
    field, field_of, field_text, field_text_view, json_field, json_u64, json_view, object_view,
    optional_field, optional_json, parse_json, parsed_json, serialized_json, u64_of, Json,
};
use crate::responses::completed::{
    client_completed, completed_visible_messages, event_response_id, is_observable,
    no_observable_output_failed_payload, no_output_failure, nothing_observed,
    observed_with_completed, observed_with_event, response_id_from_event,
    sanitized_completed_event_with_diagnostics, terminal_failed_payload, terminal_failure,
    DownstreamObservableOutputState, Observed,
};
use crate::responses::sse::{
    optional_scalar, scalar_of, sse_done, sse_done_chunk, sse_error, sse_error_chunk, sse_failed,
    sse_incomplete, sse_json, sse_json_chunk, sse_terminal_response_failed_chunk,
    sse_terminal_response_incomplete_chunk, text_or,
};
use crate::responses::upstream::{followup_create, followup_tool_outputs_text};
use crate::responses::visible::{
    completed_delta, delta_json, done_delta, empty_log, event_item_texts, event_key, fresh_deltas,
    has_accumulated_visible_assistant_text, has_visible_text, log_with_forwarded, log_with_queued,
    synthesized_completed_output_text_delta, synthesized_output_item_done_text_delta,
    synthesized_output_text_done_delta, texts_view, visible_text_delta_source_key,
    VisibleAssistantText, VisibleLog, VisibleText, VisibleTextLog,
};
use crate::text::{
    optional_str, optional_text, same_text, starts_with_text, text_starts_with, trim_text, trimmed,
};
use crate::tools::{
    build_followup_input, event_contains_internal_tool_name, followup_input, names_internal_tool,
    outputs_view, tool_call_of, InternalToolCall, PendingInternalToolOutput, ToolCall, ToolOutput,
};
use crate::ws_pump::UpstreamWebSocketError;
use serde_json::Value;
use std::collections::HashSet;
use std::collections::VecDeque;
use vstd::prelude::*;

verus! {

broadcast use vstd::std_specs::hash::group_hash_axioms;

/// Why no more messages come from the upstream.
#[derive(Debug, Clone, Copy, PartialEq, Eq, Structural)]
pub enum UpstreamEnd {
    Closed,
    InboundBufferOverflow,
}

/// The end of the upstream that an error of its connection stands for. Whatever is no overflow counts
/// as a close.
pub fn upstream_end_of(error: UpstreamWebSocketError) -> (end: UpstreamEnd)
    ensures
        end == (if error == UpstreamWebSocketError::InboundBufferOverflow {
            UpstreamEnd::InboundBufferOverflow
        } else {
            UpstreamEnd::Closed
        }),
{
    match error {
        UpstreamWebSocketError::InboundBufferOverflow => UpstreamEnd::InboundBufferOverflow,
        _ => UpstreamEnd::Closed,
    }
}

/// What becomes of the retained session.
#[derive(Debug)]
pub enum LeaseEffect {
    /// Nothing changes.
    Keep,
    /// The upstream may be replaced; the session is free again.
    RecoverAndRelease,
    /// The upstream is given up; the session is free again.
    TerminateAndRelease,
    /// The upstream is given up.
    Terminate,
    /// The response is noted as a point to continue from; the session is free again.
    CompleteAndRelease(Option<String>),
}

/// The contents of a [`LeaseEffect`].
pub enum Lease {
    Keep,
    RecoverAndRelease,
    TerminateAndRelease,
    Terminate,
    CompleteAndRelease(Option<Seq<char>>),
}

impl View for LeaseEffect {
    type V = Lease;

    open spec fn view(&self) -> Lease {
        match self {
            LeaseEffect::Keep => Lease::Keep,
            LeaseEffect::RecoverAndRelease => Lease::RecoverAndRelease,
            LeaseEffect::TerminateAndRelease => Lease::TerminateAndRelease,
            LeaseEffect::Terminate => Lease::Terminate,
            LeaseEffect::CompleteAndRelease(id) => Lease::CompleteAndRelease(optional_text(*id)),
        }
    }
}

/// What the caller is to do next.
#[derive(Debug)]
pub enum StreamAction {
    /// Send a chunk to the client and change the retained session.
    Emit { chunk: String, lease: LeaseEffect },
    /// Run a tool and report with `on_tool_result`.
    RunTool { call: InternalToolCall, event: Value },
    /// Send a text upstream and report with `on_followup_sent`.
    SendFollowup { text: String, response_id: String, event: Value },
    /// Go on with `advance`.
    Advance,
    /// Wait for the next upstream message.
    Receive,
    /// The stream has ended.
    Finish,
}

/// The contents of a [`StreamAction`].
pub enum Action {
    Emit { chunk: Seq<char>, lease: Lease },
    RunTool { call: ToolCall, event: Json },
    SendFollowup { text: Seq<char>, response_id: Seq<char>, event: Json },
    Advance,
    Receive,
    Finish,
}

impl View for StreamAction {
    type V = Action;

    open spec fn view(&self) -> Action {
        match self {
            StreamAction::Emit { chunk, lease } => Action::Emit { chunk: chunk@, lease: lease@ },
            StreamAction::RunTool { call, event } => Action::RunTool {
                call: call@,
                event: json_view(*event),
            },
            StreamAction::SendFollowup { text, response_id, event } => Action::SendFollowup {
                text: text@,
                response_id: response_id@,
                event: json_view(*event),
            },
            StreamAction::Advance => Action::Advance,
            StreamAction::Receive => Action::Receive,
            StreamAction::Finish => Action::Finish,
        }
    }
}

/// The state of one translation.
#[derive(Debug)]
pub struct ResponseStream {
    pub base_request: serde_json::Map<String, Value>,
    pub previous_response_id: Option<String>,
    pub retained: bool,
    pub execute_internal_tools: bool,
    pub apply_no_observable_output_failure: bool,
    pub pending_internal_outputs: Vec<PendingInternalToolOutput>,
    pub suppressed_internal_output_indexes: HashSet<u64>,
    pub upstream_event_seen: bool,
    pub reconnect_attempted: bool,
    pub observable_output: DownstreamObservableOutputState,
    pub visible: VisibleTextLog,
    pub queued_synthetic_output_text_deltas: VecDeque<VisibleAssistantText>,
    pub queued_forwarded_event: Option<Value>,
    pub queued_final_completed: Option<Value>,
    pub final_done_pending: bool,
    pub done: bool,
}

/// The contents of a [`ResponseStream`].
#[verifier::ext_equal]
pub struct Stream {
    pub base_request: Map<Seq<char>, Json>,
    pub previous_response_id: Option<Seq<char>>,
    pub retained: bool,
    pub execute_tools: bool,
    pub guard_output: bool,
    pub pending: Seq<ToolOutput>,
    pub suppressed: Set<u64>,
    pub event_seen: bool,
    pub reconnect_attempted: bool,
    pub observed: Observed,
    pub visible: VisibleLog,
    pub queued_deltas: Seq<VisibleText>,
    pub queued_event: Option<Json>,
    pub queued_completed: Option<Json>,
    pub done_pending: bool,
    pub done: bool,
}

/// What an optional value holds.
pub open spec fn optional_value(value: Option<Value>) -> Option<Json> {
    match value {
        Some(inner) => Some(json_view(inner)),
        None => None,
    }
}

impl View for ResponseStream {
    type V = Stream;

    open spec fn view(&self) -> Stream {
        Stream {
            base_request: object_view(self.base_request),
            previous_response_id: optional_text(self.previous_response_id),
            retained: self.retained,
            execute_tools: self.execute_internal_tools,
            guard_output: self.apply_no_observable_output_failure,
            pending: outputs_view(self.pending_internal_outputs@),
            suppressed: self.suppressed_internal_output_indexes@,
            event_seen: self.upstream_event_seen,
            reconnect_attempted: self.reconnect_attempted,
            observed: self.observable_output@,
            visible: self.visible@,
            queued_deltas: texts_view(self.queued_synthetic_output_text_deltas@),
            queued_event: optional_value(self.queued_forwarded_event),
            queued_completed: optional_value(self.queued_final_completed),
            done_pending: self.final_done_pending,
            done: self.done,
        }
    }
}

/// The type of an event.
pub open spec fn event_type_of(event: Json) -> Seq<char> {
    text_or(field_text_view(event, "type"@), "message"@)
}

/// The stream reports a failure; only the end of the stream follows.
pub open spec fn failing(stream: Stream, payload: Json, lease: Lease) -> (Stream, Action) {
    (
        Stream { done_pending: true, ..stream },
        Action::Emit { chunk: sse_failed(payload), lease },
    )
}

/// The failure that reports an error of the bridge for the response of an event.
pub open spec fn error_failure(
    response: Option<Json>,
    response_id: Option<Seq<char>>,
    error: ThreadlineError,
) -> Json {
    terminal_failure(
        response,
        response_id,
        public_error_of(error).code,
        public_error_of(error).message,
    )
}

/// The stream fails because of an error that came up with an event.
pub open spec fn failing_event(stream: Stream, event: Json, error: ThreadlineError) -> (
    Stream,
    Action,
) {
    failing(
        stream,
        error_failure(json_field(event, "response"@), event_response_id(event), error),
        Lease::TerminateAndRelease,
    )
}

/// What is to be done before another upstream message is received: first the queued text, then the
/// event behind it, then the completed response, then the end of the stream.
pub open spec fn advancing(stream: Stream) -> (Stream, Action) {
    if stream.queued_deltas.len() > 0 {
        (
            Stream { queued_deltas: stream.queued_deltas.drop_first(), ..stream },
            Action::Emit {
                chunk: sse_json(
                    "response.output_text.delta"@,
                    delta_json(stream.queued_deltas.first()),
                ),
                lease: Lease::Keep,
            },
        )
    } else if stream.queued_event is Some {
        let event = stream.queued_event->0;
        (
            Stream { queued_event: None, ..stream },
            Action::Emit { chunk: sse_json(event_type_of(event), event), lease: Lease::Keep },
        )
    } else if stream.queued_completed is Some {
        let event = stream.queued_completed->0;
        (
            Stream { queued_completed: None, done_pending: true, ..stream },
            Action::Emit {
                chunk: sse_json("response.completed"@, event),
                lease: Lease::CompleteAndRelease(event_response_id(event)),
            },
        )
    } else if stream.done_pending {
        (
            Stream { done_pending: false, done: true, ..stream },
            Action::Emit { chunk: sse_done(), lease: Lease::Keep },
        )
    } else if stream.done {
        (stream, Action::Finish)
    } else {
        (stream, Action::Receive)
    }
}

/// Whether a lost upstream is to be replaced: once, before the first event, and only to continue a
/// response of a retained session.
pub open spec fn may_reconnect(stream: Stream) -> bool {
    stream.retained && stream.previous_response_id is Some && !stream.event_seen
        && !stream.reconnect_attempted
}

/// The upstream is gone and is not replaced.
pub open spec fn ending(stream: Stream, end: UpstreamEnd) -> (Stream, Action) {
    match end {
        UpstreamEnd::Closed => failing(
            stream,
            error_failure(None, None, ThreadlineError::UpstreamWebSocketClosed),
            Lease::RecoverAndRelease,
        ),
        UpstreamEnd::InboundBufferOverflow => failing(
            stream,
            error_failure(None, None, ThreadlineError::UpstreamInboundBufferOverflow),
            Lease::TerminateAndRelease,
        ),
    }
}

/// The stream with further text queued, as far as the client was not shown it.
pub open spec fn queueing(stream: Stream, deltas: Seq<VisibleText>) -> Stream {
    Stream {
        visible: log_with_queued(stream.visible, deltas),
        queued_deltas: stream.queued_deltas + fresh_deltas(stream.visible, deltas),
        ..stream
    }
}

/// An upstream message arrived.
pub open spec fn receiving(stream: Stream, text: Seq<char>) -> (Stream, Action) {
    let seen = Stream { event_seen: true, ..stream };
    if trimmed(text) == "[DONE]"@ {
        failing(
            seen,
            terminal_failure(
                None,
                None,
                "upstream_done_before_completed"@,
                "The upstream websocket emitted [DONE] before Threadline received a terminal response event."@,
            ),
            Lease::TerminateAndRelease,
        )
    } else {
        match parsed_json(text) {
            Some(event) => receiving_event(seen, event),
            None => (
                Stream { done: true, ..seen },
                Action::Emit {
                    chunk: sse_error(ThreadlineError::UpstreamInvalidJson),
                    lease: Lease::Terminate,
                },
            ),
        }
    }
}

/// An upstream event arrived: a call of one of the bridge's tools is run, any other event is
/// translated.
pub open spec fn receiving_event(stream: Stream, event: Json) -> (Stream, Action) {
    let noted = Stream {
        observed: Observed { last_event_type: Some(event_type_of(event)), ..stream.observed },
        ..stream
    };
    if stream.execute_tools {
        match tool_call_of(event) {
            Ok(Some(call)) => (noted, Action::RunTool { call, event }),
            Ok(None) => translating(noted, event),
            Err(_) => failing_event(noted, event, ThreadlineError::InternalToolFailed),
        }
    } else {
        translating(noted, event)
    }
}

/// Whether text is held back because tool outputs wait to be sent upstream.
pub open spec fn is_intermediate_text(stream: Stream, event: Json) -> bool {
    let event_type = event_type_of(event);
    stream.pending.len() > 0 && (event_type == "response.output_text.delta"@ || event_type
        == "response.output_text.done"@ || (event_type == "response.output_item.done"@
        && event_item_texts(event).len() > 0))
}

/// Whether an event reports an item that calls one of the bridge's tools.
pub open spec fn is_internal_item(event: Json) -> bool {
    starts_with_text(event_type_of(event), "response.output_item."@) && names_internal_tool(event)
}

/// The place in the output that an event is about.
pub open spec fn output_index_of(event: Json) -> Option<u64> {
    json_u64(json_field(event, "output_index"@))
}

/// Whether an event carries arguments of a call that is hidden from the client.
pub open spec fn is_hidden_arguments(stream: Stream, event: Json) -> bool {
    event_type_of(event) == "response.function_call_arguments.delta"@ && match output_index_of(
        event,
    ) {
        Some(index) => stream.suppressed.contains(index),
        None => false,
    }
}

/// The translation of an event.
pub open spec fn translating(stream: Stream, event: Json) -> (Stream, Action) {
    let event_type = event_type_of(event);
    if is_intermediate_text(stream, event) {
        (stream, Action::Advance)
    } else if is_internal_item(event) {
        (
            match output_index_of(event) {
                Some(index) => Stream { suppressed: stream.suppressed.insert(index), ..stream },
                None => stream,
            },
            Action::Advance,
        )
    } else if is_hidden_arguments(stream, event) {
        (stream, Action::Advance)
    } else if event_type == "response.completed"@ {
        completing(stream, event)
    } else if event_type == "response.failed"@ {
        failing(stream, event, Lease::RecoverAndRelease)
    } else if event_type == "response.incomplete"@ {
        (
            Stream { done_pending: true, ..stream },
            Action::Emit { chunk: sse_incomplete(event), lease: Lease::TerminateAndRelease },
        )
    } else if event_type == "error"@ {
        let error = public_error_of(ThreadlineError::UpstreamErrorEvent);
        failing(
            stream,
            terminal_failure(
                json_field(event, "response"@),
                event_response_id(event),
                error.code,
                text_or(
                    optional_scalar(optional_field(json_field(event, "error"@), "message"@)),
                    error.message,
                ),
            ),
            Lease::TerminateAndRelease,
        )
    } else {
        forwarding(stream, event)
    }
}

/// The upstream completed a response. With tool outputs waiting, the response only carried tool
/// work: the outputs are sent upstream. Otherwise the client gets the response, or a failure when
/// the response showed it nothing.
pub open spec fn completing(stream: Stream, event: Json) -> (Stream, Action) {
    if stream.pending.len() > 0 {
        match event_response_id(event) {
            Some(id) => (
                Stream { pending: Seq::empty(), suppressed: Set::empty(), ..stream },
                Action::SendFollowup {
                    text: serialized_json(
                        Json::Object(
                            followup_create(stream.base_request, id, followup_input(stream.pending)),
                        ),
                    ),
                    response_id: id,
                    event,
                },
            ),
            None => failing_event(stream, event, ThreadlineError::InternalToolFailed),
        }
    } else {
        let shown = if has_visible_text(stream.visible.texts) {
            stream
        } else {
            queueing(stream, completed_delta(event))
        };
        let completed = client_completed(event, shown.visible.texts);
        let observed = observed_with_completed(
            shown.observed,
            completed,
            completed_visible_messages(event, shown.visible.texts),
        );
        let next = Stream { observed, ..shown };
        if stream.guard_output && !is_observable(observed) {
            failing(next, no_output_failure(event_response_id(event)), Lease::TerminateAndRelease)
        } else {
            (Stream { queued_completed: Some(completed), ..next }, Action::Advance)
        }
    }
}

/// The text that an event brings at once, for which the client may not have had deltas.
pub open spec fn finished_texts(event: Json) -> Seq<VisibleText> {
    let event_type = event_type_of(event);
    if event_type == "response.output_text.done"@ {
        done_delta(event)
    } else if event_type == "response.output_item.done"@ {
        event_item_texts(event)
    } else {
        Seq::empty()
    }
}

/// An event that the client gets as it is. Text that the client was not shown comes before it.
pub open spec fn forwarding(stream: Stream, event: Json) -> (Stream, Action) {
    let event_type = event_type_of(event);
    let texts = finished_texts(event);
    if event_type != "response.output_text.delta"@ && fresh_deltas(stream.visible, texts).len() > 0 {
        (Stream { queued_event: Some(event), ..queueing(stream, texts) }, Action::Advance)
    } else {
        let logged = if event_type == "response.output_text.delta"@ {
            Stream {
                visible: match field_text_view(event, "delta"@) {
                    Some(delta) => log_with_forwarded(
                        stream.visible,
                        VisibleText { key: event_key(event), text: delta },
                    ),
                    None => stream.visible,
                },
                observed: observed_with_event(stream.observed, event_type, event),
                ..stream
            }
        } else {
            stream
        };
        (
            Stream { observed: observed_with_event(logged.observed, event_type, event), ..logged },
            Action::Emit { chunk: sse_json(event_type, event), lease: Lease::Keep },
        )
    }
}

/// Whether an output for a call is waiting.
pub open spec fn has_output_for(pending: Seq<ToolOutput>, call_id: Seq<char>) -> bool {
    exists|i: int| 0 <= i < pending.len() && (#[trigger] pending[i]).call_id == call_id
}

/// A tool was run.
pub open spec fn tool_ran(
    stream: Stream,
    event: Json,
    result: Result<ToolOutput, ThreadlineError>,
) -> (Stream, Action) {
    match result {
        Ok(output) => if has_output_for(stream.pending, output.call_id) {
            failing_event(stream, event, ThreadlineError::InternalToolFailed)
        } else {
            (Stream { pending: stream.pending.push(output), ..stream }, Action::Advance)
        },
        Err(error) => failing_event(stream, event, error),
    }
}

/// The tool outputs were sent upstream, or could not be. Nothing that was shown before counts for
/// the response that follows.
pub open spec fn followup_sent(
    stream: Stream,
    event: Json,
    response_id: Seq<char>,
    result: Result<(), ThreadlineError>,
) -> (Stream, Action) {
    match result {
        Ok(_) => (
            Stream {
                visible: empty_log(),
                queued_deltas: Seq::empty(),
                observed: nothing_observed(),
                ..stream
            },
            Action::Advance,
        ),
        Err(error) => failing(
            stream,
            error_failure(json_field(event, "response"@), Some(response_id), error),
            Lease::TerminateAndRelease,
        ),
    }
}

/// The view of a tool's result.
pub open spec fn tool_result_view(
    result: Result<PendingInternalToolOutput, ThreadlineError>,
) -> Result<ToolOutput, ThreadlineError> {
    match result {
        Ok(output) => Ok(output@),
        Err(error) => Err(error),
    }
}

/// The type of an event.
pub fn event_type_text(event: &Value) -> (event_type: String)
    ensures
        event_type@ == event_type_of(json_view(*event)),
{
    match field_text(event, "type") {
        Some(text) => text.to_owned(),
        None => "message".to_owned(),
    }
}

impl ResponseStream {
    /// A translation that has not received anything. `retained` tells whether the response belongs
    /// to a retained session.
    pub fn new(
        base_request: serde_json::Map<String, Value>,
        previous_response_id: Option<String>,
        retained: bool,
        execute_internal_tools: bool,
        apply_no_observable_output_failure: bool,
        reconnect_attempted: bool,
    ) -> (stream: Self)
        ensures
            stream@ == (Stream {
                base_request: object_view(base_request),
                previous_response_id: optional_text(previous_response_id),
                retained,
                execute_tools: execute_internal_tools,
                guard_output: apply_no_observable_output_failure,
                pending: Seq::empty(),
                suppressed: Set::empty(),
                event_seen: false,
                reconnect_attempted,
                observed: nothing_observed(),
                visible: empty_log(),
                queued_deltas: Seq::empty(),
                queued_event: None,
                queued_completed: None,
                done_pending: false,
                done: false,
            }),
    {
        let stream = ResponseStream {
            base_request,
            previous_response_id,
            retained,
            execute_internal_tools,
            apply_no_observable_output_failure,
            pending_internal_outputs: Vec::new(),
            suppressed_internal_output_indexes: HashSet::new(),
            upstream_event_seen: false,
            reconnect_attempted,
            observable_output: DownstreamObservableOutputState::new(),
            visible: VisibleTextLog::new(),
            queued_synthetic_output_text_deltas: VecDeque::new(),
            queued_forwarded_event: None,
            queued_final_completed: None,
            final_done_pending: false,
            done: false,
        };
        assert(stream@.pending =~= Seq::empty());
        assert(stream@.queued_deltas =~= Seq::empty());
        stream
    }

    fn fail(&mut self, payload: &Value, lease: LeaseEffect) -> (action: StreamAction)
        ensures
            (final(self)@, action@) == failing(old(self)@, json_view(*payload), lease@),
    {
        self.final_done_pending = true;
        StreamAction::Emit { chunk: sse_terminal_response_failed_chunk(payload), lease }
    }

    fn fail_event(&mut self, event: &Value, error: &ThreadlineError) -> (action: StreamAction)
        ensures
            (final(self)@, action@) == failing_event(old(self)@, json_view(*event), *error),
    {
        let payload = terminal_failed_payload_from_error(
            field(event, "response"),
            response_id_from_event(event),
            error,
        );
        self.fail(&payload, LeaseEffect::TerminateAndRelease)
    }

    /// What is to be done before another upstream message is received.
    pub fn advance(&mut self) -> (action: StreamAction)
        ensures
            (final(self)@, action@) == advancing(old(self)@),
    {
        let ghost deltas = texts_view(self.queued_synthetic_output_text_deltas@);
        if let Some(delta) = self.queued_synthetic_output_text_deltas.pop_front() {
            assert(deltas.first() == delta@);
            assert(texts_view(self.queued_synthetic_output_text_deltas@) =~= deltas.drop_first());
            return StreamAction::Emit {
                chunk: sse_json_chunk("response.output_text.delta", &delta.to_delta()),
                lease: LeaseEffect::Keep,
            };
        }
        assert(texts_view(self.queued_synthetic_output_text_deltas@) =~= deltas);
        if let Some(event) = self.queued_forwarded_event.take() {
            let event_type = event_type_text(&event);
            return StreamAction::Emit {
                chunk: sse_json_chunk(event_type.as_str(), &event),
                lease: LeaseEffect::Keep,
            };
        }
        if let Some(event) = self.queued_final_completed.take() {
            self.final_done_pending = true;
            let id = crate::text::owned_text(response_id_from_event(&event));
            return StreamAction::Emit {
                chunk: sse_json_chunk("response.completed", &event),
                lease: LeaseEffect::CompleteAndRelease(id),
            };
        }
        if self.final_done_pending {
            self.final_done_pending = false;
            self.done = true;
            return StreamAction::Emit { chunk: sse_done_chunk(), lease: LeaseEffect::Keep };
        }
        if self.done {
            StreamAction::Finish
        } else {
            StreamAction::Receive
        }
    }

    /// Whether a lost upstream is to be replaced now. Only one that was closed is.
    pub fn begin_reconnect(&mut self, end: UpstreamEnd) -> (wanted: bool)
        ensures
            wanted == (end == UpstreamEnd::Closed && may_reconnect(old(self)@)),
            final(self)@ == (if end == UpstreamEnd::Closed && may_reconnect(old(self)@) {
                Stream { reconnect_attempted: true, ..old(self)@ }
            } else {
                old(self)@
            }),
    {
        if let UpstreamEnd::InboundBufferOverflow = end {
            return false;
        }
        if !self.retained || self.previous_response_id.is_none() || self.upstream_event_seen
            || self.reconnect_attempted {
            return false;
        }
        self.reconnect_attempted = true;
        true
    }

    /// The upstream is gone and is not replaced.
    pub fn on_upstream_end(&mut self, end: UpstreamEnd) -> (action: StreamAction)
        ensures
            (final(self)@, action@) == ending(old(self)@, end),
    {
        match end {
            UpstreamEnd::Closed => {
                let payload = terminal_failed_payload_from_error(
                    None,
                    None,
                    &ThreadlineError::UpstreamWebSocketClosed,
                );
                self.fail(&payload, LeaseEffect::RecoverAndRelease)
            },
            UpstreamEnd::InboundBufferOverflow => {
                let payload = terminal_failed_payload_from_error(
                    None,
                    None,
                    &ThreadlineError::UpstreamInboundBufferOverflow,
                );
                self.fail(&payload, LeaseEffect::TerminateAndRelease)
            },
        }
    }

    /// A lost upstream could not be replaced.
    pub fn on_reconnect_failed(&mut self, error: &ThreadlineError) -> (action: StreamAction)
        ensures
            (final(self)@, action@) == failing(
                old(self)@,
                error_failure(None, None, *error),
                Lease::TerminateAndRelease,
            ),
    {
        let payload = terminal_failed_payload_from_error(None, None, error);
        self.fail(&payload, LeaseEffect::TerminateAndRelease)
    }

    /// An upstream message arrived.
    pub fn on_upstream_message(&mut self, text: &str) -> (action: StreamAction)
        ensures
            (final(self)@, action@) == receiving(old(self)@, text@),
    {
        self.upstream_event_seen = true;
        if same_text(trim_text(text), "[DONE]") {
            let payload = terminal_failed_payload(
                None,
                None,
                "upstream_done_before_completed",
                "The upstream websocket emitted [DONE] before Threadline received a terminal response event.",
            );
            return self.fail(&payload, LeaseEffect::TerminateAndRelease);
        }
        match parse_json(text) {
            Ok(event) => self.on_upstream_event(event),
            Err(_) => {
                self.done = true;
                StreamAction::Emit {
                    chunk: sse_error_chunk(&ThreadlineError::UpstreamInvalidJson),
                    lease: LeaseEffect::Terminate,
                }
            },
        }
    }

    /// An upstream event arrived.
    pub fn on_upstream_event(&mut self, event: Value) -> (action: StreamAction)
        ensures
            (final(self)@, action@) == receiving_event(old(self)@, json_view(event)),
    {
        self.observable_output.last_upstream_event_type = Some(event_type_text(&event));
        if self.execute_internal_tools {
            match InternalToolCall::from_event(&event) {
                Ok(Some(call)) => return StreamAction::RunTool { call, event },
                Ok(None) => {},
                Err(error) => return self.fail_event(&event, &error),
            }
        }
        self.translate_event(event)
    }

    fn translate_event(&mut self, event: Value) -> (action: StreamAction)
        ensures
            (final(self)@, action@) == translating(old(self)@, json_view(event)),
    {
        let event_type = event_type_text(&event);
        let kind = event_type.as_str();
        if !self.pending_internal_outputs.is_empty() {
            assert(self@.pending.len() > 0);
            if same_text(kind, "response.output_text.delta") || same_text(
                kind,
                "response.output_text.done",
            ) {
                return StreamAction::Advance;
            }
            if same_text(kind, "response.output_item.done") {
                let texts = synthesized_output_item_done_text_delta(&event);
                if !texts.is_empty() {
                    assert(texts_view(texts@).len() > 0);
                    return StreamAction::Advance;
                }
                assert(texts_view(texts@).len() == 0);
            }
        }
        if text_starts_with(kind, "response.output_item.") && event_contains_internal_tool_name(
            &event,
        ) {
            if let Some(index) = u64_of(field(&event, "output_index")) {
                self.suppressed_internal_output_indexes.insert(index);
            }
            return StreamAction::Advance;
        }
        if same_text(kind, "response.function_call_arguments.delta") {
            if let Some(index) = u64_of(field(&event, "output_index")) {
                if self.suppressed_internal_output_indexes.contains(&index) {
                    return StreamAction::Advance;
                }
            }
        }
        if same_text(kind, "response.completed") {
            self.complete(event)
        } else if same_text(kind, "response.failed") {
            self.fail(&event, LeaseEffect::RecoverAndRelease)
        } else if same_text(kind, "response.incomplete") {
            self.final_done_pending = true;
            StreamAction::Emit {
                chunk: sse_terminal_response_incomplete_chunk(&event),
                lease: LeaseEffect::TerminateAndRelease,
            }
        } else if same_text(kind, "error") {
            let public_error = ThreadlineError::UpstreamErrorEvent.public_error();
            let message = match scalar_of(field_of(field(&event, "error"), "message")) {
                Some(message) => message,
                None => public_error.message,
            };
            let payload = terminal_failed_payload(
                field(&event, "response"),
                response_id_from_event(&event),
                public_error.code.as_str(),
                message.as_str(),
            );
            self.fail(&payload, LeaseEffect::TerminateAndRelease)
        } else {
            self.forward(event)
        }
    }

    fn queue_texts(&mut self, deltas: Vec<VisibleAssistantText>) -> (queued: bool)
        ensures
            final(self)@ == queueing(old(self)@, texts_view(deltas@)),
            queued == (fresh_deltas(old(self)@.visible, texts_view(deltas@)).len() > 0),
    {
        let fresh = self.visible.queue_visible_text_deltas(deltas);
        let queued = !fresh.is_empty();
        assert(texts_view(fresh@).len() == fresh@.len());
        let ghost before = texts_view(self.queued_synthetic_output_text_deltas@);
        let ghost added = texts_view(fresh@);
        let mut index: usize = 0;
        assert(before + added.take(0) =~= before);
        while index < fresh.len()
            invariant
                index <= fresh.len(),
                added == texts_view(fresh@),
                self@ == (Stream {
                    queued_deltas: before + added.take(index as int),
                    visible: log_with_queued(old(self)@.visible, texts_view(deltas@)),
                    ..old(self)@
                }),
            decreases fresh.len() - index,
        {
            let ghost queue = texts_view(self.queued_synthetic_output_text_deltas@);
            let delta = VisibleAssistantText::new(fresh[index].key.copy(), fresh[index].text.clone());
            self.queued_synthetic_output_text_deltas.push_back(delta);
            assert(texts_view(self.queued_synthetic_output_text_deltas@) =~= queue.push(delta@));
            assert(delta@ == added[index as int]);
            assert(before + added.take(index + 1) =~= (before + added.take(index as int)).push(
                added[index as int],
            ));
            index = index + 1;
        }
        assert(added.take(added.len() as int) =~= added);
        queued
    }

    fn complete(&mut self, event: Value) -> (action: StreamAction)
        ensures
            (final(self)@, action@) == completing(old(self)@, json_view(event)),
    {
        if !self.pending_internal_outputs.is_empty() {
            assert(self@.pending.len() > 0);
            let response_id = match response_id_from_event(&event) {
                Some(id) => id.to_owned(),
                None => return self.fail_event(&event, &ThreadlineError::InternalToolFailed),
            };
            let ghost pending = self@.pending;
            let mut outputs: Vec<PendingInternalToolOutput> = Vec::new();
            std::mem::swap(&mut outputs, &mut self.pending_internal_outputs);
            assert(self@.pending =~= Seq::empty());
            self.suppressed_internal_output_indexes.clear();
            let input = build_followup_input(outputs);
            let text = followup_tool_outputs_text(&self.base_request, response_id.as_str(), input);
            return StreamAction::SendFollowup { text, response_id, event };
        }
        assert(self@.pending.len() == 0);
        if !has_accumulated_visible_assistant_text(&self.visible.texts) {
            let deltas = synthesized_completed_output_text_delta(&event);
            let _ = self.queue_texts(deltas);
        }
        let (completed, diagnostics) = sanitized_completed_event_with_diagnostics(
            &event,
            &self.visible.texts,
        );
        self.observable_output.record_completed_observable_output(&completed, &diagnostics);
        if self.apply_no_observable_output_failure
            && !self.observable_output.has_observable_output() {
            let payload = no_observable_output_failed_payload(response_id_from_event(&event));
            return self.fail(&payload, LeaseEffect::TerminateAndRelease);
        }
        self.queued_final_completed = Some(completed);
        StreamAction::Advance
    }

    fn forward(&mut self, event: Value) -> (action: StreamAction)
        ensures
            (final(self)@, action@) == forwarding(old(self)@, json_view(event)),
    {
        let event_type = event_type_text(&event);
        let kind = event_type.as_str();
        proof {
            reveal_strlit("response.output_text.delta");
            reveal_strlit("response.output_text.done");
            reveal_strlit("response.output_item.done");
            assert("response.output_text.delta"@.len() == 26);
            assert("response.output_text.done"@.len() == 25);
            assert("response.output_item.done"@.len() == 25);
            assert("response.output_text.done"@[16] == 't');
            assert("response.output_item.done"@[16] == 'i');
        }
        if same_text(kind, "response.output_text.delta") {
            let key = visible_text_delta_source_key(&event);
            if let Some(delta) = field_text(&event, "delta") {
                self.visible.record_forwarded_visible_text_delta(&key, delta);
            }
            self.observable_output.record_forwarded_observable_output(kind, &event);
        } else {
            let texts = if same_text(kind, "response.output_text.done") {
                synthesized_output_text_done_delta(&event)
            } else if same_text(kind, "response.output_item.done") {
                synthesized_output_item_done_text_delta(&event)
            } else {
                Vec::new()
            };
            assert(texts_view(texts@) =~= finished_texts(json_view(event)));
            let ghost before = self@;
            if self.queue_texts(texts) {
                self.queued_forwarded_event = Some(event);
                return StreamAction::Advance;
            }
            proof {
                lemma_nothing_fresh(before.visible, finished_texts(json_view(event)));
                assert(self@ =~= before);
            }
        }
        self.observable_output.record_forwarded_observable_output(kind, &event);
        StreamAction::Emit { chunk: sse_json_chunk(kind, &event), lease: LeaseEffect::Keep }
    }

    fn has_pending_output_for(&self, call_id: &str) -> (found: bool)
        ensures
            found == has_output_for(self@.pending, call_id@),
    {
        let ghost pending = self@.pending;
        let mut index: usize = 0;
        while index < self.pending_internal_outputs.len()
            invariant
                index <= self.pending_internal_outputs.len(),
                pending == outputs_view(self.pending_internal_outputs@),
                forall|i: int| 0 <= i < index ==> (#[trigger] pending[i]).call_id != call_id@,
            decreases self.pending_internal_outputs.len() - index,
        {
            assert(pending[index as int] == self.pending_internal_outputs@[index as int]@);
            if same_text(self.pending_internal_outputs[index].call_id(), call_id) {
                return true;
            }
            index = index + 1;
        }
        false
    }

    /// A tool that an event called was run.
    pub fn on_tool_result(
        &mut self,
        event: &Value,
        result: Result<PendingInternalToolOutput, ThreadlineError>,
    ) -> (action: StreamAction)
        ensures
            (final(self)@, action@) == tool_ran(
                old(self)@,
                json_view(*event),
                tool_result_view(result),
            ),
    {
        match result {
            Ok(output) => {
                if self.has_pending_output_for(output.call_id()) {
                    return self.fail_event(event, &ThreadlineError::InternalToolFailed);
                }
                let ghost pending = self@.pending;
                self.pending_internal_outputs.push(output);
                assert(self@.pending =~= pending.push(output@));
                StreamAction::Advance
            },
            Err(error) => self.fail_event(event, &error),
        }
    }

    /// The tool outputs were sent upstream, or could not be.
    pub fn on_followup_sent(
        &mut self,
        event: &Value,
        response_id: &str,
        result: Result<(), ThreadlineError>,
    ) -> (action: StreamAction)
        ensures
            (final(self)@, action@) == followup_sent(
                old(self)@,
                json_view(*event),
                response_id@,
                result,
            ),
    {
        match result {
            Ok(_) => {
                self.visible = VisibleTextLog::new();
                self.queued_synthetic_output_text_deltas = VecDeque::new();
                assert(self@.queued_deltas =~= Seq::empty());
                self.observable_output.reset();
                StreamAction::Advance
            },
            Err(error) => {
                let payload = terminal_failed_payload_from_error(
                    field(event, "response"),
                    Some(response_id),
                    &error,
                );
                self.fail(&payload, LeaseEffect::TerminateAndRelease)
            },
        }
    }
}

/// The failure that reports an error of the bridge.
pub fn terminal_failed_payload_from_error(
    response: Option<&Value>,
    response_id: Option<&str>,
    error: &ThreadlineError,
) -> (payload: Value)
    ensures
        json_view(payload) == error_failure(
            optional_json(response),
            optional_str(response_id),
            *error,
        ),
{
    let public_error = error.public_error();
    terminal_failed_payload(
        response,
        response_id,
        public_error.code.as_str(),
        public_error.message.as_str(),
    )
}

proof fn lemma_nothing_fresh(log: VisibleLog, deltas: Seq<VisibleText>)
    requires
        fresh_deltas(log, deltas).len() == 0,
    ensures
        log_with_queued(log, deltas) == log,
        fresh_deltas(log, deltas) =~= Seq::empty(),
    decreases deltas.len(),
{
    if deltas.len() > 0 {
        lemma_nothing_fresh(log, deltas.drop_last());
    }
}

/// Nothing more than the end of the stream is queued.
pub open spec fn only_end_is_queued(stream: Stream) -> bool {
    stream.queued_deltas.len() == 0 && stream.queued_event is None && stream.queued_completed is None
        && stream.done_pending
}

/// A terminal event is followed by one end marker, and then the stream is over for good.
pub proof fn law_terminal_event_is_followed_by_one_end_marker(stream: Stream)
    requires
        only_end_is_queued(stream),
    ensures
        ({
            let (ended, marker) = advancing(stream);
            &&& marker == Action::Emit { chunk: sse_done(), lease: Lease::Keep }
            &&& advancing(ended) == (ended, Action::Finish)
        }),
{
}

/// A completed response reaches the client as one `response.completed`, which makes the response a
/// point to continue from and frees the session, followed by one end marker.
pub proof fn law_completed_response_is_emitted_once(stream: Stream)
    requires
        stream.queued_deltas.len() == 0,
        stream.queued_event is None,
        stream.queued_completed is Some,
    ensures
        ({
            let (next, action) = advancing(stream);
            &&& action == Action::Emit {
                chunk: sse_json("response.completed"@, stream.queued_completed->0),
                lease: Lease::CompleteAndRelease(event_response_id(stream.queued_completed->0)),
            }
            &&& only_end_is_queued(next)
        }),
{
}

/// Whatever way a stream fails, the failure is the only thing that the client gets before the end
/// marker, if nothing was queued before.
pub proof fn law_failure_leaves_only_the_end_marker(stream: Stream, payload: Json, lease: Lease)
    requires
        stream.queued_deltas.len() == 0,
        stream.queued_event is None,
        stream.queued_completed is None,
    ensures
        only_end_is_queued(failing(stream, payload, lease).0),
{
}

/// The items in which the upstream calls one of the bridge's tools are not shown to the client,
/// and neither are the arguments that stream in for them afterwards.
pub proof fn law_internal_tool_items_are_hidden(stream: Stream, item: Json, arguments: Json)
    requires
        is_internal_item(item),
        output_index_of(item) is Some,
        output_index_of(arguments) == output_index_of(item),
        event_type_of(arguments) == "response.function_call_arguments.delta"@,
    ensures
        translating(stream, item).1 == Action::Advance,
        !is_intermediate_text(stream, item) ==> translating(translating(stream, item).0, arguments)
            == (translating(stream, item).0, Action::Advance),
{
    reveal_strlit("response.function_call_arguments.delta");
    reveal_strlit("response.output_text.delta");
    reveal_strlit("response.output_text.done");
    reveal_strlit("response.output_item.done");
    reveal_strlit("response.output_item.");
    assert("response.function_call_arguments.delta"@.len() == 38);
    assert("response.output_text.delta"@.len() == 26);
    assert("response.output_text.done"@.len() == 25);
    assert("response.output_item.done"@.len() == 25);
    assert("response.output_item."@.len() == 21);
    let kind = event_type_of(arguments);
    if is_internal_item(arguments) {
        assert(kind.subrange(0, 21)[9] == kind[9]);
        assert(kind[9] == 'f');
        assert("response.output_item."@[9] == 'o');
        assert(false);
    }
}

/// With tool outputs waiting, a completed response is not shown to the client: all outputs go
/// upstream in the order in which the tools ran, and none is left waiting.
pub proof fn law_intermediate_completion_becomes_a_followup(stream: Stream, event: Json)
    requires
        stream.pending.len() > 0,
        event_type_of(event) == "response.completed"@,
        event_response_id(event) is Some,
    ensures
        ({
            let (next, action) = translating(stream, event);
            &&& next.pending.len() == 0
            &&& next.queued_completed == stream.queued_completed
            &&& action == Action::SendFollowup {
                text: serialized_json(
                    Json::Object(
                        followup_create(
                            stream.base_request,
                            event_response_id(event)->0,
                            followup_input(stream.pending),
                        ),
                    ),
                ),
                response_id: event_response_id(event)->0,
                event,
            }
        }),
{
    reveal_strlit("response.completed");
    reveal_strlit("response.function_call_arguments.delta");
    reveal_strlit("response.output_text.delta");
    reveal_strlit("response.output_text.done");
    reveal_strlit("response.output_item.done");
    reveal_strlit("response.output_item.");
    assert("response.completed"@.len() == 18);
    assert("response.function_call_arguments.delta"@.len() == 38);
    assert("response.output_text.delta"@.len() == 26);
    assert("response.output_text.done"@.len() == 25);
    assert("response.output_item.done"@.len() == 25);
    assert("response.output_item."@.len() == 21);
}

/// A guarded stream never completes a response that showed the client nothing: it fails with
/// `threadline_no_observable_output`, and a response that did show something is completed.
pub proof fn law_guarded_completion_shows_something(stream: Stream, event: Json)
    requires
        stream.guard_output,
        stream.pending.len() == 0,
        stream.queued_completed is None,
    ensures
        ({
            let (next, action) = completing(stream, event);
            &&& is_observable(next.observed) <==> next.queued_completed is Some
            &&& !is_observable(next.observed) ==> action == Action::Emit {
                chunk: sse_failed(no_output_failure(event_response_id(event))),
                lease: Lease::TerminateAndRelease,
            }
        }),
{
}

/// A lost upstream is replaced at most once, never after an event was seen, and never when it was
/// lost to an overflow.
pub proof fn law_reconnects_at_most_once(stream: Stream, text: Seq<char>)
    ensures
        !may_reconnect(Stream { reconnect_attempted: true, ..stream }),
        !may_reconnect(receiving(stream, text).0),
        ending(stream, UpstreamEnd::InboundBufferOverflow).1 == (Action::Emit {
            chunk: sse_failed(
                error_failure(None, None, ThreadlineError::UpstreamInboundBufferOverflow),
            ),
            lease: Lease::TerminateAndRelease,
        }),
{
}

} // verus!
