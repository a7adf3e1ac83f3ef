//! What holds of every translation of an upstream event stream.

use crate::errors::{error_document_json, public_error_of, ThreadlineError};
use crate::json::{
    json_field, json_u64, member, optional_field, parsed_json, serialized_json, Json, JsonNumber,
};
use crate::responses::completed::{event_response_id, is_observable, observed_with_event, terminal_failure, Observed};
use crate::responses::completion_laws::{
    law_new_text_is_shown, law_readable_items_have_texts, law_texts_are_told_apart_by_their_place,
    number_in, place_of, same_place, shows_text,
};
use crate::responses::sse::{
    failed_document, incomplete_document, optional_scalar, scalar_text, sse_failed, sse_json,
};
use crate::responses::translation::{
    advancing, ending, failing_event, finished_texts, followup_sent, may_reconnect, receiving,
    receiving_event, tool_ran, translating, Action, Lease, Stream, UpstreamEnd,
};
use crate::responses::upstream::followup_create;
use crate::responses::visible::{
    delta_json, done_delta, event_item_texts, event_key, fresh_deltas, identity_of, item_texts,
    law_forwarded_text_is_not_repeated, log_with_forwarded, SourceKey, VisibleLog, VisibleText,
};
use crate::text::{is_blank, starts_with_text, trimmed};
use crate::tools::{
    followup_input, law_only_finished_calls_are_run, law_tool_names_are_found_at_any_depth,
    names_internal_tool, tool_call_of, ToolCall, ToolOutput,
};
use vstd::prelude::*;

verus! {

/// Whether an event has a type.
pub open spec fn is_of_type(event: Json, kind: Seq<char>) -> bool {
    event matches Json::Object(members) && member(members, "type"@) == Some(Json::Str(kind))
}

/// The chunk in which the client gets a document.
pub open spec fn chunk_of(kind: Seq<char>, document: Json) -> Seq<char> {
    "event: "@ + kind + "\ndata: "@ + serialized_json(document) + "\n\n"@
}

/// Whether a type says that the upstream is done with a response.
pub open spec fn is_terminal(kind: Seq<char>) -> bool {
    kind == "response.completed"@ || kind == "response.failed"@ || kind == "response.incomplete"@
        || kind == "error"@
}

/// Whether a type is that of a report on an item of the output.
pub open spec fn is_item_report(kind: Seq<char>) -> bool {
    "response.output_item."@.is_prefix_of(kind)
}

proof fn lemma_kinds(kind: Seq<char>)
    ensures
        starts_with_text(kind, "response.output_item."@) == is_item_report(kind),
        is_item_report("response.output_item.done"@),
        is_item_report("response.output_item.added"@),
        !is_item_report("response.completed"@),
        !is_item_report("response.failed"@),
        !is_item_report("response.incomplete"@),
        !is_item_report("error"@),
        !is_item_report("response.output_text.delta"@),
        !is_item_report("response.output_text.done"@),
        !is_item_report("response.function_call_arguments.delta"@),
        !is_item_report("message"@),
        !is_terminal("response.output_text.delta"@),
        !is_terminal("response.output_text.done"@),
        !is_terminal("response.function_call_arguments.delta"@),
        !is_terminal("response.output_item.done"@),
        !is_terminal("message"@),
        is_item_report(kind) ==> !is_terminal(kind),
        "response.output_text.delta"@ != "response.output_text.done"@,
        "response.output_text.delta"@ != "response.output_item.done"@,
        "response.output_text.delta"@ != "response.function_call_arguments.delta"@,
        "response.output_text.done"@ != "response.output_item.done"@,
        "response.output_text.done"@ != "response.function_call_arguments.delta"@,
        "response.output_item.done"@ != "response.function_call_arguments.delta"@,
        "message"@ != "response.output_text.delta"@,
        "message"@ != "response.output_text.done"@,
        "message"@ != "response.output_item.done"@,
        "message"@ != "response.function_call_arguments.delta"@,
        "response.completed"@ != "response.failed"@,
        "response.completed"@ != "response.incomplete"@,
        "response.completed"@ != "error"@,
        "response.failed"@ != "response.incomplete"@,
        "response.failed"@ != "error"@,
        "response.incomplete"@ != "error"@,
{
    reveal_strlit("response.output_item.");
    reveal_strlit("response.output_item.done");
    reveal_strlit("response.output_item.added");
    reveal_strlit("response.completed");
    reveal_strlit("response.failed");
    reveal_strlit("response.incomplete");
    reveal_strlit("error");
    reveal_strlit("message");
    reveal_strlit("response.output_text.delta");
    reveal_strlit("response.output_text.done");
    reveal_strlit("response.function_call_arguments.delta");
    let prefix = "response.output_item."@;
    assert(prefix.len() == 21 && prefix[16] == 'i' && prefix[9] == 'o');
    assert("response.output_item.done"@.len() == 25 && "response.output_item.done"@[16] == 'i');
    assert("response.output_item.added"@.len() == 26);
    assert("response.completed"@.len() == 18 && "response.failed"@.len() == 15);
    assert("response.incomplete"@.len() == 19 && "error"@.len() == 5 && "message"@.len() == 7);
    assert("response.output_text.delta"@.len() == 26 && "response.output_text.delta"@[16] == 't');
    assert("response.output_text.done"@.len() == 25 && "response.output_text.done"@[16] == 't');
    assert("response.function_call_arguments.delta"@.len() == 38);
    assert("response.function_call_arguments.delta"@[9] == 'f');
    assert(prefix.is_prefix_of("response.output_item.done"@));
    assert(prefix.is_prefix_of("response.output_item.added"@));
    if prefix.is_prefix_of("response.output_text.delta"@) {
        assert(prefix[16] == "response.output_text.delta"@[16]);
    }
    if prefix.is_prefix_of("response.output_text.done"@) {
        assert(prefix[16] == "response.output_text.done"@[16]);
    }
    if prefix.is_prefix_of("response.function_call_arguments.delta"@) {
        assert(prefix[9] == "response.function_call_arguments.delta"@[9]);
    }
    if prefix.is_prefix_of(kind) {
        assert(kind.subrange(0, 21) =~= prefix);
    }
    if starts_with_text(kind, prefix) {
        assert(prefix =~= kind.subrange(0, 21));
    }
}

proof fn lemma_only_item_reports_call_tools(event: Json, kind: Seq<char>)
    requires
        is_of_type(event, kind),
        kind != "response.output_item.done"@ || !names_internal_tool(event),
    ensures
        tool_call_of(event) == Ok::<Option<ToolCall>, ()>(None),
{
    if tool_call_of(event) != Ok::<Option<ToolCall>, ()>(None) {
        law_only_finished_calls_are_run(event);
        let members = event->Object_0;
        let item = members["item"@];
        law_tool_names_are_found_at_any_depth(item);
        law_tool_names_are_found_at_any_depth(event);
        assert(members.contains_key("item"@));
    }
}

/// What belongs to the client reaches it. An event that neither ends the response nor brings text
/// nor reports an item of the output is sent to the client as it came, at once and under its own
/// type, and the session is kept. This holds of the arguments of a call, too, unless they are for a
/// place in the output at which a call of one of the bridge's tools was noted. Nothing is held back
/// or forgotten on that account.
pub proof fn law_client_events_are_forwarded(
    stream: Stream,
    text: Seq<char>,
    event: Json,
    kind: Seq<char>,
)
    requires
        trimmed(text) != "[DONE]"@,
        parsed_json(text) == Some(event),
        is_of_type(event, kind),
        !is_terminal(kind),
        !is_item_report(kind),
        kind != "response.output_text.delta"@,
        kind != "response.output_text.done"@,
        kind == "response.function_call_arguments.delta"@ ==> match member(
            event->Object_0,
            "output_index"@,
        ) {
            Some(Json::Number(JsonNumber::Unsigned(index))) => !stream.suppressed.contains(index),
            _ => true,
        },
    ensures
        ({
            let (next, action) = receiving(stream, text);
            &&& action == Action::Emit { chunk: chunk_of(kind, event), lease: Lease::Keep }
            &&& next == Stream { event_seen: true, observed: next.observed, ..stream }
            &&& next.observed == observed_with_event(
                Observed { last_event_type: Some(kind), ..stream.observed },
                kind,
                event,
            )
        }),
{
    lemma_kinds(kind);
    lemma_only_item_reports_call_tools(event, kind);
    assert(fresh_deltas(stream.visible, Seq::empty()).len() == 0);
}

/// A message without a type reaches the client as it came, under the type `message`.
pub proof fn law_untyped_messages_are_forwarded(stream: Stream, text: Seq<char>, event: Json)
    requires
        trimmed(text) != "[DONE]"@,
        parsed_json(text) == Some(event),
        event matches Json::Object(members) ==> !(member(members, "type"@) matches Some(
            Json::Str(_),
        )),
    ensures
        ({
            let (next, action) = receiving(stream, text);
            &&& action == Action::Emit { chunk: chunk_of("message"@, event), lease: Lease::Keep }
            &&& next == Stream { event_seen: true, observed: next.observed, ..stream }
        }),
{
    lemma_kinds("message"@);
    if tool_call_of(event) != Ok::<Option<ToolCall>, ()>(None) {
        law_only_finished_calls_are_run(event);
    }
    assert(fresh_deltas(stream.visible, Seq::empty()).len() == 0);
}

/// Text that streams in reaches the client as it came, at once, while no output of the bridge's
/// tools waits to be sent upstream.
pub proof fn law_text_is_forwarded(stream: Stream, text: Seq<char>, event: Json)
    requires
        trimmed(text) != "[DONE]"@,
        parsed_json(text) == Some(event),
        is_of_type(event, "response.output_text.delta"@),
        stream.pending.len() == 0,
    ensures
        ({
            let (next, action) = receiving(stream, text);
            &&& action == Action::Emit {
                chunk: chunk_of("response.output_text.delta"@, event),
                lease: Lease::Keep,
            }
            &&& next == Stream {
                event_seen: true,
                observed: next.observed,
                visible: next.visible,
                ..stream
            }
            &&& is_observable(next.observed)
            &&& next.visible == (match member(event->Object_0, "delta"@) {
                Some(Json::Str(delta)) => log_with_forwarded(
                    stream.visible,
                    VisibleText { key: place_of(event->Object_0), text: delta },
                ),
                _ => stream.visible,
            })
        }),
{
    lemma_kinds("response.output_text.delta"@);
    lemma_only_item_reports_call_tools(event, "response.output_text.delta"@);
}

/// The end of a text, and reports on items of the output in which none of the bridge's tools is
/// named, reach the client as they came, unless they bring text while outputs of the bridge's tools
/// wait. They come at once, or directly behind text that is queued before them.
pub proof fn law_item_reports_reach_the_client(
    stream: Stream,
    text: Seq<char>,
    event: Json,
    kind: Seq<char>,
)
    requires
        trimmed(text) != "[DONE]"@,
        parsed_json(text) == Some(event),
        is_of_type(event, kind),
        kind == "response.output_text.done"@ || (is_item_report(kind) && !names_internal_tool(
            event,
        )),
        stream.pending.len() > 0 ==> is_item_report(kind) && !(kind == "response.output_item.done"@
            && reports_text(event)),
    ensures
        ({
            let (next, action) = receiving(stream, text);
            let noted = Observed { last_event_type: Some(kind), ..stream.observed };
            ||| action == Action::Emit { chunk: chunk_of(kind, event), lease: Lease::Keep } && next
                == Stream {
                event_seen: true,
                observed: observed_with_event(noted, kind, event),
                ..stream
            }
            ||| {
                &&& action == Action::Advance
                &&& next.queued_deltas.len() > stream.queued_deltas.len()
                &&& stream.queued_deltas.is_prefix_of(next.queued_deltas)
                &&& next.queued_event == Some(event)
                &&& advancing(Stream { queued_deltas: Seq::empty(), ..next }) == (
                    Stream { queued_deltas: Seq::empty(), queued_event: None, ..next },
                    Action::Emit { chunk: chunk_of(kind, event), lease: Lease::Keep },
                )
                &&& next == Stream {
                    event_seen: true,
                    observed: noted,
                    visible: next.visible,
                    queued_deltas: next.queued_deltas,
                    queued_event: next.queued_event,
                    ..stream
                }
            }
        }),
{
    lemma_kinds(kind);
    lemma_only_item_reports_call_tools(event, kind);
    lemma_reported_text(event);
    let fresh = fresh_deltas(stream.visible, finished_texts(event));
    assert(stream.queued_deltas.is_prefix_of(stream.queued_deltas + fresh));
}

/// Whether an event reports an item in which the client can read something.
pub open spec fn reports_text(event: Json) -> bool {
    event matches Json::Object(members) && (member(members, "item"@) matches Some(item)
        && shows_text(item))
}

proof fn lemma_reported_text(event: Json)
    ensures
        event_item_texts(event).len() > 0 <==> reports_text(event),
{
    if let Some(item) = json_field(event, "item"@) {
        law_readable_items_have_texts(item, json_u64(json_field(event, "output_index"@)));
    }
}

/// Nothing is hidden from the client but the bridge's own work: a report on an item in which one of
/// its tools is named, arguments for a place at which such an item was noted, and text that comes
/// while outputs of its tools wait. A place is noted only by such a report.
pub proof fn law_only_the_bridges_work_is_hidden(stream: Stream, event: Json, kind: Seq<char>)
    requires
        is_of_type(event, kind),
        stream.queued_event is None,
        stream.queued_completed is None,
    ensures
        ({
            let (next, action) = translating(stream, event);
            let place = member(event->Object_0, "output_index"@);
            let names_tool = is_item_report(kind) && names_internal_tool(event);
            let waits = stream.pending.len() > 0;
            &&& action == Action::Advance && next.queued_event is None && next.queued_completed is None
                ==> names_tool || (kind == "response.function_call_arguments.delta"@ && (
            place matches Some(Json::Number(JsonNumber::Unsigned(index)))
                && stream.suppressed.contains(index))) || (waits && (kind
                == "response.output_text.delta"@ || kind == "response.output_text.done"@ || (kind
                == "response.output_item.done"@ && reports_text(event))))
            &&& next.suppressed != stream.suppressed ==> (names_tool && (place matches Some(
                Json::Number(JsonNumber::Unsigned(index)),
            ) && next.suppressed == stream.suppressed.insert(index))) || (kind
                == "response.completed"@ && waits)
        }),
{
    lemma_kinds(kind);
    lemma_reported_text(event);
}

/// The bridge's own work stays hidden. A report on an item in which one of its tools is named leads
/// to nothing that the client sees, and neither do arguments that stream in for the same place
/// afterwards.
pub proof fn law_the_bridges_calls_stay_hidden(
    stream: Stream,
    report: Json,
    kind: Seq<char>,
    arguments: Json,
    index: u64,
)
    requires
        is_of_type(report, kind),
        is_item_report(kind),
        names_internal_tool(report),
        member(report->Object_0, "output_index"@) == Some(
            Json::Number(JsonNumber::Unsigned(index)),
        ),
        is_of_type(arguments, "response.function_call_arguments.delta"@),
        member(arguments->Object_0, "output_index"@) == Some(
            Json::Number(JsonNumber::Unsigned(index)),
        ),
        stream.pending.len() == 0,
    ensures
        ({
            let (next, action) = translating(stream, report);
            &&& action == Action::Advance
            &&& next == Stream { suppressed: stream.suppressed.insert(index), ..stream }
            &&& translating(next, arguments) == (next, Action::Advance)
        }),
{
    lemma_kinds(kind);
    lemma_kinds("response.function_call_arguments.delta"@);
}

/// Text is held back while outputs of the bridge's tools wait: it belongs to a response that the
/// client is not shown.
pub proof fn law_intermediate_text_is_held_back(stream: Stream, event: Json, kind: Seq<char>)
    requires
        is_of_type(event, kind),
        stream.pending.len() > 0,
        kind == "response.output_text.delta"@ || kind == "response.output_text.done"@,
    ensures
        translating(stream, event) == (stream, Action::Advance),
{
}

/// A finished call of one of the bridge's tools is run where the stream runs tools, and is shown to
/// nobody.
pub proof fn law_tools_are_run(stream: Stream, text: Seq<char>, event: Json, call: ToolCall)
    requires
        trimmed(text) != "[DONE]"@,
        parsed_json(text) == Some(event),
        stream.execute_tools,
        tool_call_of(event) == Ok::<Option<ToolCall>, ()>(Some(call)),
    ensures
        ({
            let (next, action) = receiving(stream, text);
            &&& action == Action::RunTool { call, event }
            &&& next == Stream { event_seen: true, observed: next.observed, ..stream }
            &&& next.observed == Observed {
                last_event_type: next.observed.last_event_type,
                ..stream.observed
            }
        }),
{
}

/// Whether a document tells the client that its response failed, why, and which response it was.
pub open spec fn tells_failure(
    document: Json,
    code: Seq<char>,
    message: Seq<char>,
    response_id: Option<Seq<char>>,
) -> bool {
    document matches Json::Object(members) && {
        &&& member(members, "type"@) == Some(Json::Str("response.failed"@))
        &&& member(members, "response"@) matches Some(Json::Object(response)) && {
            &&& member(response, "status"@) == Some(Json::Str("failed"@))
            &&& member(response, "error"@) matches Some(Json::Object(error)) && {
                &&& member(error, "code"@) == Some(Json::Str(code))
                &&& member(error, "message"@) == Some(Json::Str(message))
            }
            &&& response_id matches Some(id) ==> member(response, "id"@) == Some(Json::Str(id))
        }
    }
}

/// Whether an action tells the client that its response failed and does something to the session.
pub open spec fn is_failure(
    action: Action,
    code: Seq<char>,
    message: Seq<char>,
    response_id: Option<Seq<char>>,
    lease: Lease,
) -> bool {
    exists|document: Json|
        tells_failure(document, code, message, response_id) && action == (Action::Emit {
            chunk: #[trigger] chunk_of("response.failed"@, document),
            lease,
        })
}

/// The id of a response that failed: the one that the response itself has or, where it has none, the
/// one that is known of it, if that is not empty.
pub open spec fn failed_id(response: Option<Json>, known: Option<Seq<char>>) -> Option<Seq<char>> {
    match response {
        Some(Json::Object(members)) if members.contains_key("id"@) => match members["id"@] {
            Json::Str(id) => Some(id),
            _ => None,
        },
        _ => match known {
            Some(id) if id.len() > 0 => Some(id),
            _ => None,
        },
    }
}

/// The response that an event is about: the event names it, or else the response in it does.
pub open spec fn response_named_by(event: Json) -> Option<Seq<char>> {
    match event {
        Json::Object(members) => match member(members, "response_id"@) {
            Some(Json::Str(id)) => Some(id),
            _ => match member(members, "response"@) {
                Some(Json::Object(response)) => match member(response, "id"@) {
                    Some(Json::Str(id)) => Some(id),
                    _ => None,
                },
                _ => None,
            },
        },
        _ => None,
    }
}

/// The response in an event.
pub open spec fn response_in(event: Json) -> Option<Json> {
    match event {
        Json::Object(members) => member(members, "response"@),
        _ => None,
    }
}

/// Whether an action tells the client that the response of an event failed because of an error, and
/// gives the session up.
pub open spec fn is_error_report(action: Action, event: Json, error: ThreadlineError) -> bool {
    is_failure(
        action,
        public_error_of(error).code,
        public_error_of(error).message,
        failed_id(response_in(event), response_named_by(event)),
        Lease::TerminateAndRelease,
    )
}

proof fn lemma_response_keys()
    ensures
        "type"@ != "response"@,
        "type"@ != "error"@,
        "response"@ != "error"@,
        "id"@ != "model"@,
        "id"@ != "usage"@,
        "id"@ != "output"@,
        "id"@ != "status"@,
        "id"@ != "error"@,
        "id"@ != "incomplete_details"@,
        "model"@ != "usage"@,
        "model"@ != "output"@,
        "model"@ != "status"@,
        "model"@ != "error"@,
        "model"@ != "incomplete_details"@,
        "usage"@ != "output"@,
        "usage"@ != "status"@,
        "usage"@ != "error"@,
        "usage"@ != "incomplete_details"@,
        "output"@ != "status"@,
        "output"@ != "error"@,
        "output"@ != "incomplete_details"@,
        "status"@ != "error"@,
        "status"@ != "incomplete_details"@,
        "code"@ != "message"@,
{
    reveal_strlit("type");
    reveal_strlit("response");
    reveal_strlit("error");
    reveal_strlit("id");
    reveal_strlit("model");
    reveal_strlit("usage");
    reveal_strlit("output");
    reveal_strlit("status");
    reveal_strlit("incomplete_details");
    reveal_strlit("code");
    reveal_strlit("message");
    assert("type"@.len() == 4 && "response"@.len() == 8 && "id"@.len() == 2);
    assert("error"@.len() == 5 && "error"@[0] == 'e');
    assert("model"@.len() == 5 && "model"@[0] == 'm');
    assert("usage"@.len() == 5 && "usage"@[0] == 'u');
    assert("output"@.len() == 6 && "output"@[0] == 'o');
    assert("status"@.len() == 6 && "status"@[0] == 's');
    assert("incomplete_details"@.len() == 18);
    assert("code"@.len() == 4 && "message"@.len() == 7);
}

proof fn lemma_failure(
    response: Option<Json>,
    response_id: Option<Seq<char>>,
    code: Seq<char>,
    message: Seq<char>,
    lease: Lease,
)
    ensures
        is_failure(
            Action::Emit {
                chunk: sse_failed(terminal_failure(response, response_id, code, message)),
                lease,
            },
            code,
            message,
            failed_id(response, response_id),
            lease,
        ),
{
    lemma_response_keys();
    let payload = terminal_failure(response, response_id, code, message);
    let document = failed_document(payload);
    assert(tells_failure(document, code, message, failed_id(response, response_id)));
    assert(sse_failed(payload) == chunk_of("response.failed"@, document));
}

proof fn lemma_error_report(stream: Stream, event: Json, error: ThreadlineError)
    ensures
        failing_event(stream, event, error).0 == (Stream { done_pending: true, ..stream }),
        is_error_report(failing_event(stream, event, error).1, event, error),
        event_response_id(event) == response_named_by(event),
{
    lemma_failure(
        json_field(event, "response"@),
        event_response_id(event),
        public_error_of(error).code,
        public_error_of(error).message,
        Lease::TerminateAndRelease,
    );
}

/// The output of a tool waits behind those of the tools that ran before it. A second output for one
/// call is a failure, and so is a tool that could not be run: the session is given up, and the
/// client is told.
pub proof fn law_tool_outputs_wait_in_order(
    stream: Stream,
    event: Json,
    result: Result<ToolOutput, ThreadlineError>,
)
    ensures
        ({
            let (next, action) = tool_ran(stream, event, result);
            match result {
                Ok(output) => if exists|i: int|
                    0 <= i < stream.pending.len() && (#[trigger] stream.pending[i]).call_id
                        == output.call_id {
                    is_error_report(action, event, ThreadlineError::InternalToolFailed) && next == (
                    Stream { done_pending: true, ..stream })
                } else {
                    action == Action::Advance && next == (Stream {
                        pending: stream.pending.push(output),
                        ..stream
                    })
                },
                Err(error) => is_error_report(action, event, error) && next == (Stream {
                    done_pending: true,
                    ..stream
                }),
            }
        }),
{
    lemma_error_report(stream, event, ThreadlineError::InternalToolFailed);
    if let Err(error) = result {
        lemma_error_report(stream, event, error);
    }
}

/// A call of one of the bridge's tools that cannot be read ends the response with a failure.
pub proof fn law_unreadable_calls_fail(stream: Stream, text: Seq<char>, event: Json)
    requires
        trimmed(text) != "[DONE]"@,
        parsed_json(text) == Some(event),
        stream.execute_tools,
        tool_call_of(event) is Err,
    ensures
        ({
            let (next, action) = receiving(stream, text);
            &&& is_error_report(action, event, ThreadlineError::InternalToolFailed)
            &&& next == Stream {
                event_seen: true,
                done_pending: true,
                observed: next.observed,
                ..stream
            }
        }),
{
    let noted = receiving_event(Stream { event_seen: true, ..stream }, event).0;
    lemma_error_report(
        Stream { done_pending: stream.done_pending, ..noted },
        event,
        ThreadlineError::InternalToolFailed,
    );
}

/// With outputs of the bridge's tools waiting, a completed response is not shown to the client. All
/// outputs go upstream with the next message, which continues that response with the request that
/// the turn began with; none is left waiting, and no place in the output stays noted. Without an id
/// to continue from, the response fails.
pub proof fn law_outputs_go_upstream(stream: Stream, event: Json)
    requires
        is_of_type(event, "response.completed"@),
        stream.pending.len() > 0,
    ensures
        ({
            let (next, action) = translating(stream, event);
            match response_named_by(event) {
                Some(id) => {
                    &&& action == Action::SendFollowup {
                        text: serialized_json(
                            Json::Object(
                                followup_create(
                                    stream.base_request,
                                    id,
                                    followup_input(stream.pending),
                                ),
                            ),
                        ),
                        response_id: id,
                        event,
                    }
                    &&& next == Stream {
                        pending: Seq::empty(),
                        suppressed: Set::empty(),
                        ..stream
                    }
                },
                None => {
                    &&& is_error_report(action, event, ThreadlineError::InternalToolFailed)
                    &&& next == Stream { done_pending: true, ..stream }
                },
            }
        }),
{
    lemma_kinds("response.completed"@);
    lemma_error_report(stream, event, ThreadlineError::InternalToolFailed);
}

/// The response that follows on tool outputs starts afresh: nothing that the client was shown before
/// counts for it. Everything else stays. Outputs that could not be sent end the response.
pub proof fn law_responses_after_tools_start_afresh(
    stream: Stream,
    event: Json,
    response_id: Seq<char>,
    result: Result<(), ThreadlineError>,
)
    ensures
        ({
            let (next, action) = followup_sent(stream, event, response_id, result);
            match result {
                Ok(_) => {
                    &&& action == Action::Advance
                    &&& next == Stream {
                        visible: next.visible,
                        observed: next.observed,
                        queued_deltas: Seq::empty(),
                        ..stream
                    }
                    &&& next.visible.texts.len() == 0
                    &&& next.visible.sources =~= Set::empty()
                    &&& next.visible.last_unidentified is None
                    &&& !is_observable(next.observed)
                },
                Err(error) => {
                    &&& is_failure(
                        action,
                        public_error_of(error).code,
                        public_error_of(error).message,
                        failed_id(response_in(event), Some(response_id)),
                        Lease::TerminateAndRelease,
                    )
                    &&& next == Stream { done_pending: true, ..stream }
                },
            }
        }),
{
    if let Err(error) = result {
        lemma_failure(
            json_field(event, "response"@),
            Some(response_id),
            public_error_of(error).code,
            public_error_of(error).message,
            Lease::TerminateAndRelease,
        );
    }
}

/// What ends a response without completing it reaches the client as one terminal event. A failure of
/// the upstream leaves the session to be continued; an incomplete response and an error give it up.
/// Only the end marker follows.
pub proof fn law_ends_without_completion(
    stream: Stream,
    text: Seq<char>,
    event: Json,
    kind: Seq<char>,
)
    requires
        trimmed(text) != "[DONE]"@,
        parsed_json(text) == Some(event),
        is_of_type(event, kind),
        kind == "response.failed"@ || kind == "response.incomplete"@ || kind == "error"@,
    ensures
        ({
            let (next, action) = receiving(stream, text);
            &&& next == Stream {
                event_seen: true,
                done_pending: true,
                observed: next.observed,
                ..stream
            }
            &&& kind == "response.failed"@ ==> action == (Action::Emit {
                chunk: chunk_of("response.failed"@, failed_document(event)),
                lease: Lease::RecoverAndRelease,
            })
            &&& kind == "response.incomplete"@ ==> action == (Action::Emit {
                chunk: chunk_of("response.incomplete"@, incomplete_document(event)),
                lease: Lease::TerminateAndRelease,
            })
            &&& kind == "error"@ ==> is_failure(
                action,
                public_error_of(ThreadlineError::UpstreamErrorEvent).code,
                match member(event->Object_0, "error"@) {
                    Some(Json::Object(error)) => match member(error, "message"@) {
                        Some(message) => match scalar_text(message) {
                            Some(said) => said,
                            None => public_error_of(ThreadlineError::UpstreamErrorEvent).message,
                        },
                        None => public_error_of(ThreadlineError::UpstreamErrorEvent).message,
                    },
                    _ => public_error_of(ThreadlineError::UpstreamErrorEvent).message,
                },
                failed_id(response_in(event), response_named_by(event)),
                Lease::TerminateAndRelease,
            )
        }),
{
    lemma_kinds(kind);
    lemma_only_item_reports_call_tools(event, kind);
    let error = public_error_of(ThreadlineError::UpstreamErrorEvent);
    let said = match optional_scalar(optional_field(json_field(event, "error"@), "message"@)) {
        Some(message) => message,
        None => error.message,
    };
    lemma_failure(
        json_field(event, "response"@),
        event_response_id(event),
        error.code,
        said,
        Lease::TerminateAndRelease,
    );
}

/// An end marker before the response was completed, and a message that is no JSON, end the stream:
/// the first with a failure and an end marker, the second with an error and nothing more. The
/// session is given up.
pub proof fn law_broken_streams_are_ended(stream: Stream, text: Seq<char>)
    requires
        trimmed(text) == "[DONE]"@ || parsed_json(text) is None,
    ensures
        ({
            let (next, action) = receiving(stream, text);
            if trimmed(text) == "[DONE]"@ {
                &&& is_failure(
                    action,
                    "upstream_done_before_completed"@,
                    "The upstream websocket emitted [DONE] before Threadline received a terminal response event."@,
                    None,
                    Lease::TerminateAndRelease,
                )
                &&& next == Stream { event_seen: true, done_pending: true, ..stream }
            } else {
                &&& action == Action::Emit {
                    chunk: chunk_of(
                        "error"@,
                        error_document_json(public_error_of(ThreadlineError::UpstreamInvalidJson)),
                    ),
                    lease: Lease::Terminate,
                }
                &&& next == Stream { event_seen: true, done: true, ..stream }
            }
        }),
{
    lemma_failure(
        None,
        None,
        "upstream_done_before_completed"@,
        "The upstream websocket emitted [DONE] before Threadline received a terminal response event."@,
        Lease::TerminateAndRelease,
    );
}

/// A connection that ends before the response does ends the stream with a failure. After a close the
/// session can be continued; after an overflow it is given up.
pub proof fn law_lost_connections_are_reported(stream: Stream, end: UpstreamEnd)
    ensures
        ({
            let (next, action) = ending(stream, end);
            let (error, lease) = match end {
                UpstreamEnd::Closed => (
                    ThreadlineError::UpstreamWebSocketClosed,
                    Lease::RecoverAndRelease,
                ),
                UpstreamEnd::InboundBufferOverflow => (
                    ThreadlineError::UpstreamInboundBufferOverflow,
                    Lease::TerminateAndRelease,
                ),
            };
            &&& is_failure(
                action,
                public_error_of(error).code,
                public_error_of(error).message,
                None,
                lease,
            )
            &&& next == Stream { done_pending: true, ..stream }
        }),
{
    let closed = public_error_of(ThreadlineError::UpstreamWebSocketClosed);
    let overflow = public_error_of(ThreadlineError::UpstreamInboundBufferOverflow);
    lemma_failure(None, None, closed.code, closed.message, Lease::RecoverAndRelease);
    lemma_failure(None, None, overflow.code, overflow.message, Lease::TerminateAndRelease);
}

/// A lost connection is replaced only for a turn that continues a response of a retained session,
/// before its first event, and once.
pub proof fn law_reconnects_only_before_the_first_event(stream: Stream)
    ensures
        may_reconnect(stream) <==> (stream.retained && stream.previous_response_id is Some
            && !stream.event_seen && !stream.reconnect_attempted),
{
}

/// What is queued reaches the client in order and exactly once: the texts, each as a delta with its
/// own contents, then the event behind them, then the completed response, then the end marker, and
/// then nothing. Only a stream with nothing queued waits for the upstream.
pub proof fn law_queued_output_is_emptied_in_order(stream: Stream)
    ensures
        ({
            let (next, action) = advancing(stream);
            if stream.queued_deltas.len() > 0 {
                &&& next == Stream { queued_deltas: stream.queued_deltas.skip(1), ..stream }
                &&& is_text_chunk(action, stream.queued_deltas[0])
            } else if stream.queued_event is Some {
                &&& next == Stream { queued_event: None, ..stream }
                &&& action matches Action::Emit { chunk, lease } && lease == Lease::Keep && forall|
                    kind: Seq<char>,
                |
                    is_of_type(stream.queued_event->0, kind) ==> chunk == #[trigger] chunk_of(
                        kind,
                        stream.queued_event->0,
                    )
            } else if stream.queued_completed is Some {
                &&& next == Stream { queued_completed: None, done_pending: true, ..stream }
                &&& action == Action::Emit {
                    chunk: chunk_of("response.completed"@, stream.queued_completed->0),
                    lease: Lease::CompleteAndRelease(
                        response_named_by(stream.queued_completed->0),
                    ),
                }
            } else if stream.done_pending {
                &&& next == Stream { done_pending: false, done: true, ..stream }
                &&& action == Action::Emit { chunk: "data: [DONE]\n\n"@, lease: Lease::Keep }
            } else {
                &&& next == stream
                &&& action == if stream.done {
                    Action::Finish
                } else {
                    Action::Receive
                }
            }
        }),
{
    if stream.queued_deltas.len() > 0 {
        assert(stream.queued_deltas.drop_first() =~= stream.queued_deltas.skip(1));
        lemma_text_chunk(stream.queued_deltas[0]);
    }
}

/// Whether an action sends the client a text, with all that is known of where it belongs.
pub open spec fn is_text_chunk(action: Action, text: VisibleText) -> bool {
    exists|document: Json|
        is_text_delta(document, text) && action == (Action::Emit {
            chunk: #[trigger] chunk_of("response.output_text.delta"@, document),
            lease: Lease::Keep,
        })
}

/// A number as a member.
pub open spec fn number_member(number: Option<u64>) -> Option<Json> {
    match number {
        Some(value) => Some(Json::Number(JsonNumber::Unsigned(value))),
        None => None,
    }
}

/// Whether a document is the delta for a text.
pub open spec fn is_text_delta(document: Json, text: VisibleText) -> bool {
    document matches Json::Object(members) && {
        &&& member(members, "type"@) == Some(Json::Str("response.output_text.delta"@))
        &&& member(members, "delta"@) == Some(Json::Str(text.text))
        &&& member(members, "item_id"@) == (match text.key.item_id {
            Some(id) => Some(Json::Str(id)),
            None => None,
        })
        &&& member(members, "output_index"@) == number_member(text.key.output_index)
        &&& member(members, "content_index"@) == number_member(text.key.content_index)
    }
}

proof fn lemma_text_chunk(text: VisibleText)
    ensures
        is_text_delta(delta_json(text), text),
        is_text_chunk(
            Action::Emit {
                chunk: sse_json("response.output_text.delta"@, delta_json(text)),
                lease: Lease::Keep,
            },
            text,
        ),
{
    reveal_strlit("type");
    reveal_strlit("delta");
    reveal_strlit("item_id");
    reveal_strlit("output_index");
    reveal_strlit("content_index");
    assert("type"@.len() == 4 && "delta"@.len() == 5 && "item_id"@.len() == 7);
    assert("output_index"@.len() == 12 && "content_index"@.len() == 13);
    assert(sse_json("response.output_text.delta"@, delta_json(text)) == chunk_of(
        "response.output_text.delta"@,
        delta_json(text),
    ));
}

/// Text that streamed in is not repeated when it is finished: the end of the same text reaches the
/// client at once, with no text before it.
pub proof fn law_streamed_text_is_not_repeated(
    stream: Stream,
    delta: Map<Seq<char>, Json>,
    done: Map<Seq<char>, Json>,
    text: Seq<char>,
)
    requires
        stream.pending.len() == 0,
        is_of_type(Json::Object(delta), "response.output_text.delta"@),
        member(delta, "delta"@) == Some(Json::Str(text)),
        is_of_type(Json::Object(done), "response.output_text.done"@),
        same_place(place_of(delta), place_of(done)),
    ensures
        ({
            let shown = translating(stream, Json::Object(delta)).0;
            let (next, action) = translating(shown, Json::Object(done));
            &&& action == Action::Emit {
                chunk: chunk_of("response.output_text.done"@, Json::Object(done)),
                lease: Lease::Keep,
            }
            &&& next.queued_deltas == stream.queued_deltas
            &&& next.queued_event == stream.queued_event
        }),
{
    lemma_kinds("response.output_text.delta"@);
    lemma_kinds("response.output_text.done"@);
    let key = event_key(Json::Object(delta));
    assert(key == place_of(delta));
    assert(event_key(Json::Object(done)) == place_of(done));
    law_texts_are_told_apart_by_their_place(key, place_of(done));
    let shown = translating(stream, Json::Object(delta)).0;
    let spoken = VisibleText { key, text };
    assert(shown.visible == log_with_forwarded(stream.visible, spoken));
    let texts = done_delta(Json::Object(done));
    if texts.len() > 0 {
        assert(texts =~= seq![texts[0]]);
        law_forwarded_text_is_not_repeated(stream.visible, spoken, texts[0]);
    }
    assert(fresh_deltas(shown.visible, texts).len() == 0);
}

/// Text that did not stream in is shown when it is finished: it is queued before the event that
/// brings it.
pub proof fn law_text_that_did_not_stream_is_shown(
    stream: Stream,
    done: Map<Seq<char>, Json>,
    text: Seq<char>,
)
    requires
        stream.pending.len() == 0,
        is_of_type(Json::Object(done), "response.output_text.done"@),
        member(done, "text"@) == Some(Json::Str(text)),
        !is_blank(text),
        identity_of(place_of(done)) matches Some(place) && !stream.visible.sources.contains(place),
    ensures
        ({
            let (next, action) = translating(stream, Json::Object(done));
            &&& action == Action::Advance
            &&& next.queued_deltas == stream.queued_deltas.push(
                VisibleText { key: place_of(done), text },
            )
            &&& next.queued_event == Some(Json::Object(done))
        }),
{
    lemma_kinds("response.output_text.done"@);
    let texts = done_delta(Json::Object(done));
    assert(texts =~= seq![VisibleText { key: place_of(done), text }]);
    law_new_text_is_shown(stream.visible, texts);
    assert(stream.queued_deltas + texts =~= stream.queued_deltas.push(
        VisibleText { key: place_of(done), text },
    ));
}

/// The texts of an item that did not stream in are shown when the item is finished, before the event
/// that reports it.
pub proof fn law_items_that_did_not_stream_are_shown(
    stream: Stream,
    done: Map<Seq<char>, Json>,
    item: Json,
)
    requires
        stream.pending.len() == 0,
        is_of_type(Json::Object(done), "response.output_item.done"@),
        member(done, "item"@) == Some(item),
        !names_internal_tool(Json::Object(done)),
        item_texts(item, number_in(done, "output_index"@)).len() > 0,
        forall|i: int|
            0 <= i < item_texts(item, number_in(done, "output_index"@)).len() ==> is_new_place(
                stream.visible,
                (#[trigger] item_texts(item, number_in(done, "output_index"@))[i]).key,
            ),
        forall|i: int, j: int|
            0 <= i < j < item_texts(item, number_in(done, "output_index"@)).len() ==> !same_place(
                (#[trigger] item_texts(item, number_in(done, "output_index"@))[i]).key,
                (#[trigger] item_texts(item, number_in(done, "output_index"@))[j]).key,
            ),
    ensures
        ({
            let (next, action) = translating(stream, Json::Object(done));
            &&& action == Action::Advance
            &&& next.queued_deltas == stream.queued_deltas + item_texts(
                item,
                number_in(done, "output_index"@),
            )
            &&& next.queued_event == Some(Json::Object(done))
        }),
{
    lemma_kinds("response.output_item.done"@);
    law_new_text_is_shown(stream.visible, item_texts(item, number_in(done, "output_index"@)));
}

/// Whether nothing was shown for a place.
pub open spec fn is_new_place(log: VisibleLog, key: SourceKey) -> bool {
    identity_of(key) matches Some(place) && !log.sources.contains(place)
}

/// A forwarded text delta counts as output that the client can observe.
pub proof fn law_forwarded_text_is_observed(stream: Stream, event: Json)
    requires
        is_of_type(event, "response.output_text.delta"@),
        stream.pending.len() == 0,
    ensures
        is_observable(translating(stream, event).0.observed),
{
    lemma_kinds("response.output_text.delta"@);
}

/// Every event is noted: a message that was read is seen, and the last type that came is known.
pub proof fn law_events_are_noted(stream: Stream, event: Json, kind: Seq<char>)
    requires
        is_of_type(event, kind),
        tool_call_of(event) == Ok::<Option<ToolCall>, ()>(None) || !stream.execute_tools,
    ensures
        receiving_event(stream, event) == translating(
            Stream {
                observed: Observed { last_event_type: Some(kind), ..stream.observed },
                ..stream
            },
            event,
        ),
{
}

} // verus!
