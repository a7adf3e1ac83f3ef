//! What the bridge's diagnostics may say of events: types, ids and lengths, never contents.

use crate::json::{
    array_of, array_view, field, field_of, field_text, field_text_view, json_array, json_field,
    json_text, json_u64, json_view, member, optional_field, optional_json, owned_text_of, text_of,
    u64_of, Json, JsonNumber,
};
use crate::responses::completed::{
    event_response_id, response_id_from_event, CompletedSanitizationDiagnostics,
};
use crate::responses::translation::{event_type_of, event_type_text, ResponseStream};
use crate::responses::visible::{texts_view, VisibleAssistantText, VisibleText};
use crate::text::{copy_text, optional_text, owned_text, same_text};
use serde_json::Value;
use vstd::prelude::*;
use vstd::utf8::encode_utf8;

verus! {

broadcast use vstd::std_specs::hash::group_hash_axioms;

pub const RESPONSES_TRANSLATION_UPSTREAM_EVENT: &'static str = "responses_translation_upstream_event";

pub const RESPONSES_TRANSLATION_DOWNSTREAM_SSE_EVENT: &'static str = "responses_translation_downstream_sse_event";

pub const RESPONSES_TRANSLATION_EVENT_SUPPRESSED: &'static str = "responses_translation_event_suppressed";

pub const RESPONSES_TRANSLATION_NO_OBSERVABLE_OUTPUT_GUARD: &'static str = "responses_translation_no_observable_output_guard";

/// What was done with an event.
#[derive(Clone, Copy, Debug, PartialEq, Eq, Structural)]
pub enum DownstreamTraceAction {
    Forwarded,
    Suppressed,
    Terminal,
    ErrorTranslated,
}

/// The name of an action.
pub open spec fn action_name(action: DownstreamTraceAction) -> Seq<char> {
    match action {
        DownstreamTraceAction::Forwarded => "forwarded"@,
        DownstreamTraceAction::Suppressed => "suppressed"@,
        DownstreamTraceAction::Terminal => "terminal"@,
        DownstreamTraceAction::ErrorTranslated => "error-translated"@,
    }
}

impl DownstreamTraceAction {
    pub fn as_str(self) -> (name: &'static str)
        ensures
            name@ == action_name(self),
    {
        match self {
            DownstreamTraceAction::Forwarded => "forwarded",
            DownstreamTraceAction::Suppressed => "suppressed",
            DownstreamTraceAction::Terminal => "terminal",
            DownstreamTraceAction::ErrorTranslated => "error-translated",
        }
    }
}

/// What may be said of an upstream event.
#[derive(Debug, Clone)]
pub struct UpstreamEventTraceMetadata {
    pub event_type: String,
    pub response_id: Option<String>,
    pub item_type: Option<String>,
    pub item_name: Option<String>,
    pub call_id: Option<String>,
    pub arguments_length: Option<usize>,
    pub delta_length: Option<usize>,
    pub output_index: Option<u64>,
    pub content_index: Option<u64>,
    pub item_id: Option<String>,
    pub is_compaction: bool,
    pub compaction_id: Option<String>,
    pub has_encrypted_content: Option<bool>,
}

/// The contents of an [`UpstreamEventTraceMetadata`].
#[verifier::ext_equal]
pub struct EventTrace {
    pub event_type: Seq<char>,
    pub response_id: Option<Seq<char>>,
    pub item_type: Option<Seq<char>>,
    pub item_name: Option<Seq<char>>,
    pub call_id: Option<Seq<char>>,
    pub arguments_length: Option<usize>,
    pub delta_length: Option<usize>,
    pub output_index: Option<u64>,
    pub content_index: Option<u64>,
    pub item_id: Option<Seq<char>>,
    pub is_compaction: bool,
    pub compaction_id: Option<Seq<char>>,
    pub has_encrypted_content: Option<bool>,
}

impl View for UpstreamEventTraceMetadata {
    type V = EventTrace;

    open spec fn view(&self) -> EventTrace {
        EventTrace {
            event_type: self.event_type@,
            response_id: optional_text(self.response_id),
            item_type: optional_text(self.item_type),
            item_name: optional_text(self.item_name),
            call_id: optional_text(self.call_id),
            arguments_length: self.arguments_length,
            delta_length: self.delta_length,
            output_index: self.output_index,
            content_index: self.content_index,
            item_id: optional_text(self.item_id),
            is_compaction: self.is_compaction,
            compaction_id: optional_text(self.compaction_id),
            has_encrypted_content: self.has_encrypted_content,
        }
    }
}

/// The first of two texts that is there.
pub open spec fn first_text(first: Option<Seq<char>>, second: Option<Seq<char>>) -> Option<
    Seq<char>,
> {
    match first {
        Some(text) => Some(text),
        None => second,
    }
}

/// The first of two documents that is there.
pub open spec fn first_document(first: Option<Json>, second: Option<Json>) -> Option<Json> {
    match first {
        Some(document) => Some(document),
        None => second,
    }
}

/// The length in bytes of a document that is a string.
pub open spec fn text_length(document: Option<Json>) -> Option<usize> {
    match json_text(document) {
        Some(text) => Some(encode_utf8(text).len() as usize),
        None => None,
    }
}

/// What may be said of an upstream event.
pub open spec fn event_trace(event: Json) -> EventTrace {
    let item = json_field(event, "item"@);
    let item_type = first_text(
        json_text(optional_field(item, "type"@)),
        field_text_view(event, "item_type"@),
    );
    let item_id = first_text(
        field_text_view(event, "item_id"@),
        json_text(optional_field(item, "id"@)),
    );
    let is_compaction = item_type == Some("compaction"@);
    EventTrace {
        event_type: event_type_of(event),
        response_id: event_response_id(event),
        item_type,
        item_name: first_text(
            first_text(
                json_text(optional_field(item, "name"@)),
                field_text_view(event, "name"@),
            ),
            field_text_view(event, "tool_name"@),
        ),
        call_id: first_text(
            json_text(optional_field(item, "call_id"@)),
            field_text_view(event, "call_id"@),
        ),
        arguments_length: text_length(
            first_document(optional_field(item, "arguments"@), json_field(event, "arguments"@)),
        ),
        delta_length: text_length(json_field(event, "delta"@)),
        output_index: json_u64(json_field(event, "output_index"@)),
        content_index: json_u64(json_field(event, "content_index"@)),
        item_id,
        is_compaction,
        compaction_id: if is_compaction {
            item_id
        } else {
            None
        },
        has_encrypted_content: if is_compaction {
            Some(optional_field(item, "encrypted_content"@) is Some)
        } else {
            None
        },
    }
}

fn either_text(first: Option<String>, second: Option<String>) -> (text: Option<String>)
    ensures
        optional_text(text) == first_text(optional_text(first), optional_text(second)),
{
    match first {
        Some(text) => Some(text),
        None => second,
    }
}

fn string_length_field(value: Option<&Value>) -> (length: Option<usize>)
    ensures
        length == text_length(optional_json(value)),
{
    match text_of(value) {
        Some(text) => Some(text.len()),
        None => None,
    }
}

impl UpstreamEventTraceMetadata {
    pub fn from_event(event: &Value) -> (metadata: Self)
        ensures
            metadata@ == event_trace(json_view(*event)),
    {
        let item = field(event, "item");
        let item_type = either_text(
            owned_text_of(field_of(item, "type")),
            owned_text_of(field(event, "item_type")),
        );
        let item_id = either_text(
            owned_text_of(field(event, "item_id")),
            owned_text_of(field_of(item, "id")),
        );
        let is_compaction = match &item_type {
            Some(text) => same_text(text.as_str(), "compaction"),
            None => false,
        };
        let arguments = match field_of(item, "arguments") {
            Some(arguments) => Some(arguments),
            None => field(event, "arguments"),
        };
        let compaction_id = if is_compaction {
            copy_text(&item_id)
        } else {
            None
        };
        let has_encrypted_content = if is_compaction {
            Some(field_of(item, "encrypted_content").is_some())
        } else {
            None
        };
        let metadata = UpstreamEventTraceMetadata {
            event_type: event_type_text(event),
            response_id: owned_text(response_id_from_event(event)),
            item_type,
            item_name: either_text(
                either_text(
                    owned_text_of(field_of(item, "name")),
                    owned_text_of(field(event, "name")),
                ),
                owned_text_of(field(event, "tool_name")),
            ),
            call_id: either_text(
                owned_text_of(field_of(item, "call_id")),
                owned_text_of(field(event, "call_id")),
            ),
            arguments_length: string_length_field(arguments),
            delta_length: string_length_field(field(event, "delta")),
            output_index: u64_of(field(event, "output_index")),
            content_index: u64_of(field(event, "content_index")),
            item_id,
            is_compaction,
            compaction_id,
            has_encrypted_content,
        };
        metadata
    }
}

/// Numbers that go with an event that is sent to the client.
#[derive(Debug, Clone)]
pub struct DownstreamTraceDiagnostics {
    pub response_id: Option<String>,
    pub synthetic_delta_source: Option<&'static str>,
    pub visible_text_delta_count: Option<usize>,
    pub visible_text_length: Option<usize>,
    pub sanitized_internal_function_call_count: Option<usize>,
    pub sanitized_compaction_count: Option<usize>,
    pub completed_visible_message_count: Option<usize>,
}

impl Default for DownstreamTraceDiagnostics {
    fn default() -> (diagnostics: Self)
        ensures
            diagnostics.response_id is None,
            diagnostics.synthetic_delta_source is None,
            diagnostics.visible_text_delta_count is None,
            diagnostics.visible_text_length is None,
            diagnostics.sanitized_internal_function_call_count is None,
            diagnostics.sanitized_compaction_count is None,
            diagnostics.completed_visible_message_count is None,
    {
        DownstreamTraceDiagnostics {
            response_id: None,
            synthetic_delta_source: None,
            visible_text_delta_count: None,
            visible_text_length: None,
            sanitized_internal_function_call_count: None,
            sanitized_compaction_count: None,
            completed_visible_message_count: None,
        }
    }
}

/// What may be said of an event that is sent to the client.
#[derive(Debug, Clone)]
pub struct DownstreamSseTraceMetadata {
    pub translation_action: &'static str,
    pub event: UpstreamEventTraceMetadata,
    pub diagnostics: DownstreamTraceDiagnostics,
}

/// What may be said of an event that is sent to the client. A response id among the numbers takes
/// precedence over the event's own.
pub fn downstream_sse_trace_metadata(
    event: &Value,
    action: DownstreamTraceAction,
    diagnostics: Option<&DownstreamTraceDiagnostics>,
) -> (metadata: DownstreamSseTraceMetadata)
    ensures
        metadata.translation_action@ == action_name(action),
        metadata.event@ == (EventTrace {
            response_id: first_text(
                match diagnostics {
                    Some(given) => optional_text(given.response_id),
                    None => None,
                },
                event_trace(json_view(*event)).response_id,
            ),
            ..event_trace(json_view(*event))
        }),
        match diagnostics {
            Some(given) => metadata.diagnostics == *given,
            None => metadata.diagnostics.response_id is None
                && metadata.diagnostics.synthetic_delta_source is None
                && metadata.diagnostics.visible_text_delta_count is None
                && metadata.diagnostics.visible_text_length is None
                && metadata.diagnostics.sanitized_internal_function_call_count is None
                && metadata.diagnostics.sanitized_compaction_count is None
                && metadata.diagnostics.completed_visible_message_count is None,
        },
{
    let mut metadata = UpstreamEventTraceMetadata::from_event(event);
    let copied = match diagnostics {
        Some(given) => DownstreamTraceDiagnostics {
            response_id: copy_text(&given.response_id),
            synthetic_delta_source: given.synthetic_delta_source,
            visible_text_delta_count: given.visible_text_delta_count,
            visible_text_length: given.visible_text_length,
            sanitized_internal_function_call_count: given.sanitized_internal_function_call_count,
            sanitized_compaction_count: given.sanitized_compaction_count,
            completed_visible_message_count: given.completed_visible_message_count,
        },
        None => DownstreamTraceDiagnostics::default(),
    };
    if let Some(id) = &copied.response_id {
        metadata.response_id = Some(id.clone());
    }
    DownstreamSseTraceMetadata {
        translation_action: action.as_str(),
        event: metadata,
        diagnostics: copied,
    }
}

/// What may be said of a response that showed the client nothing.
#[derive(Debug, Clone)]
pub struct NoObservableOutputGuardDiagnostics {
    pub response_id: Option<String>,
    pub pending_internal_outputs_count: usize,
    pub suppressed_internal_tool_call_count: usize,
    pub forwarded_external_tool_call_count: usize,
    pub forwarded_compaction_or_marker_count: usize,
    pub visible_assistant_text_len: usize,
    pub completed_output_item_types: Vec<String>,
    pub upstream_last_event_type: Option<String>,
    pub is_intermediate_completed: bool,
}

/// The types of the first `count` items, as far as they have one.
pub open spec fn item_types(items: Seq<Json>, count: int) -> Seq<Seq<char>>
    decreases count,
{
    if count <= 0 {
        Seq::empty()
    } else {
        let earlier = item_types(items, count - 1);
        match field_text_view(items[count - 1], "type"@) {
            Some(text) => earlier.push(text),
            None => earlier,
        }
    }
}

/// A sum that stops at the largest number.
pub open spec fn capped_sum(first: nat, second: nat) -> nat {
    if first + second <= usize::MAX {
        first + second
    } else {
        usize::MAX as nat
    }
}

/// The length in bytes of the first `count` texts together.
pub open spec fn total_length(texts: Seq<VisibleText>, count: int) -> nat
    decreases count,
{
    if count <= 0 {
        0
    } else {
        capped_sum(
            total_length(texts, count - 1),
            (encode_utf8(texts[count - 1].text).len() as usize) as nat,
        )
    }
}

/// The types of a completed response's items.
fn completed_output_item_types(completed_event: &Value) -> (types: Vec<String>)
    ensures
        crate::text::texts(types@) == match json_array(
            optional_field(json_field(json_view(*completed_event), "response"@), "output"@),
        ) {
            Some(items) => item_types(items, items.len() as int),
            None => Seq::empty(),
        },
{
    let mut types: Vec<String> = Vec::new();
    if let Some(items) = array_of(field_of(field(completed_event, "response"), "output")) {
        let ghost documents = array_view(items@);
        let mut index: usize = 0;
        while index < items.len()
            invariant
                index <= items.len(),
                documents == array_view(items@),
                crate::text::texts(types@) =~= item_types(documents, index as int),
            decreases items.len() - index,
        {
            assert(documents[index as int] == json_view(items@[index as int]));
            if let Some(text) = field_text(&items[index], "type") {
                let ghost before = crate::text::texts(types@);
                types.push(text.to_owned());
                assert(crate::text::texts(types@) =~= before.push(text@));
            }
            index = index + 1;
        }
    } else {
        assert(crate::text::texts(types@) =~= Seq::empty());
    }
    types
}

fn visible_text_length(visible_text: &Vec<VisibleAssistantText>) -> (length: usize)
    ensures
        length == total_length(texts_view(visible_text@), visible_text@.len() as int),
{
    let ghost texts = texts_view(visible_text@);
    let mut length: usize = 0;
    let mut index: usize = 0;
    while index < visible_text.len()
        invariant
            index <= visible_text.len(),
            texts == texts_view(visible_text@),
            length == total_length(texts, index as int),
        decreases visible_text.len() - index,
    {
        assert(texts[index as int] == visible_text@[index as int]@);
        length = length.saturating_add(visible_text[index].text.as_str().len());
        index = index + 1;
    }
    length
}

/// What may be said of a stream whose completed response showed the client nothing.
pub fn no_observable_output_guard_diagnostics(
    stream: &ResponseStream,
    completed_event: &Value,
    diagnostics: &CompletedSanitizationDiagnostics,
) -> (report: NoObservableOutputGuardDiagnostics)
    ensures
        optional_text(report.response_id) == event_response_id(json_view(*completed_event)),
        report.pending_internal_outputs_count == stream@.pending.len(),
        report.suppressed_internal_tool_call_count == capped_sum(
            stream@.suppressed.len(),
            diagnostics.sanitized_internal_function_call_count as nat,
        ),
        report.forwarded_external_tool_call_count == capped_sum(
            stream@.observed.external_calls,
            stream@.observed.final_external_calls,
        ),
        report.forwarded_compaction_or_marker_count == capped_sum(
            stream@.observed.markers,
            stream@.observed.final_markers,
        ),
        report.visible_assistant_text_len == total_length(
            stream@.visible.texts,
            stream@.visible.texts.len() as int,
        ),
        crate::text::texts(report.completed_output_item_types@) == match json_array(
            optional_field(json_field(json_view(*completed_event), "response"@), "output"@),
        ) {
            Some(items) => item_types(items, items.len() as int),
            None => Seq::empty(),
        },
        optional_text(report.upstream_last_event_type) == stream@.observed.last_event_type,
        report.is_intermediate_completed == (stream@.pending.len() > 0),
{
    let observed = &stream.observable_output;
    NoObservableOutputGuardDiagnostics {
        response_id: owned_text(response_id_from_event(completed_event)),
        pending_internal_outputs_count: stream.pending_internal_outputs.len(),
        suppressed_internal_tool_call_count:
            stream.suppressed_internal_output_indexes.len().saturating_add(
            diagnostics.sanitized_internal_function_call_count,
        ),
        forwarded_external_tool_call_count:
            observed.forwarded_external_tool_call_count.saturating_add(
            observed.final_external_tool_call_count,
        ),
        forwarded_compaction_or_marker_count:
            observed.forwarded_marker_like_output_count.saturating_add(
            observed.final_marker_like_output_count,
        ),
        visible_assistant_text_len: visible_text_length(&stream.visible.texts),
        completed_output_item_types: completed_output_item_types(completed_event),
        upstream_last_event_type: copy_text(&observed.last_upstream_event_type),
        is_intermediate_completed: !stream.pending_internal_outputs.is_empty(),
    }
}

/// A trace tells what an event is about and how long its texts are, and shows none of them: the type,
/// the response, the place in the output and, of an item, its type, its name, its call and its id.
pub proof fn law_traces_tell_what_events_are_about(
    event: Map<Seq<char>, Json>,
    item: Map<Seq<char>, Json>,
    text: Seq<char>,
    number: u64,
)
    requires
        member(event, "item"@) == Some(Json::Object(item)),
    ensures
        ({
            let trace = event_trace(Json::Object(event));
            &&& member(event, "type"@) == Some(Json::Str(text)) ==> trace.event_type == text
            &&& member(event, "response_id"@) == Some(Json::Str(text)) ==> trace.response_id == Some(
                text,
            )
            &&& member(item, "type"@) == Some(Json::Str(text)) ==> trace.item_type == Some(text)
                && trace.is_compaction == (text == "compaction"@)
            &&& member(item, "name"@) == Some(Json::Str(text)) ==> trace.item_name == Some(text)
            &&& member(item, "call_id"@) == Some(Json::Str(text)) ==> trace.call_id == Some(text)
            &&& member(event, "item_id"@) == Some(Json::Str(text)) ==> trace.item_id == Some(text)
            &&& member(item, "arguments"@) == Some(Json::Str(text)) ==> trace.arguments_length
                == Some(encode_utf8(text).len() as usize)
            &&& member(event, "delta"@) == Some(Json::Str(text)) ==> trace.delta_length == Some(
                encode_utf8(text).len() as usize,
            )
            &&& member(event, "output_index"@) == Some(Json::Number(JsonNumber::Unsigned(number)))
                ==> trace.output_index == Some(number)
            &&& member(event, "content_index"@) == Some(Json::Number(JsonNumber::Unsigned(number)))
                ==> trace.content_index == Some(number)
            &&& trace.is_compaction ==> trace.has_encrypted_content == Some(
                item.contains_key("encrypted_content"@),
            )
            &&& !trace.is_compaction ==> trace.compaction_id is None
                && trace.has_encrypted_content is None
        }),
{
}

} // verus!
