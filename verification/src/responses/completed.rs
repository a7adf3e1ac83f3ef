//! The end of a response: what the client sees of it, and whether it saw anything at all.

use crate::json::{
    array_of, array_view, field, field_is, field_of, field_text_view, json_array, json_field,
    json_str, json_text, json_view, make_value, member, new_object, no_members, object_get,
    object_insert, object_of, object_view, optional_field, optional_json, text_of, text_value, Json,
    Node,
};
use crate::responses::sse::error_json;
use crate::responses::visible::{
    event_output, is_assistant_message, texts_view, visible_part, VisibleAssistantText, VisibleText,
};
use crate::text::{is_blank, joined, optional_str, optional_text, same_text, text_is_blank};
use crate::tools::{is_internal_name, is_internal_text, is_internal_tool_name};
use serde_json::Value;
use vstd::prelude::*;

verus! {

/// The id of the response that an event is about.
pub open spec fn event_response_id(event: Json) -> Option<Seq<char>> {
    match field_text_view(event, "response_id"@) {
        Some(id) => Some(id),
        None => json_text(optional_field(json_field(event, "response"@), "id"@)),
    }
}

/// The name under which an item calls a tool.
pub open spec fn called_tool(item: Json) -> Option<Seq<char>> {
    match json_field(item, "name"@) {
        Some(name) => json_text(Some(name)),
        None => field_text_view(item, "tool_name"@),
    }
}

/// Whether an item is a call of one of the bridge's tools.
pub open spec fn is_internal_call(item: Json) -> bool {
    field_text_view(item, "type"@) == Some("function_call"@) && is_internal_text(called_tool(item))
}

/// Whether an item is a call of a tool of the client.
pub open spec fn is_external_call(item: Json) -> bool {
    field_text_view(item, "type"@) == Some("function_call"@) && match called_tool(item) {
        Some(name) => !is_internal_name(name),
        None => false,
    }
}

/// Whether an item is a generated image.
pub open spec fn is_image(item: Json) -> bool {
    field_text_view(item, "type"@) == Some("image_generation_call"@) && match field_text_view(
        item,
        "result"@,
    ) {
        Some(result) => !is_blank(result),
        None => false,
    }
}

/// Whether an item marks a change of the conversation's context.
pub open spec fn is_marker(item: Json) -> bool {
    field_text_view(item, "type"@) == Some("compaction"@) || field_text_view(item, "type"@) == Some(
        "context"@,
    )
}

/// Whether an item is a message of the assistant with text that the client can see.
pub open spec fn is_visible_message(item: Json) -> bool {
    is_assistant_message(item) && match json_array(json_field(item, "content"@)) {
        Some(content) => exists|i: int|
            0 <= i < content.len() && visible_part(#[trigger] content[i]) is Some,
        None => false,
    }
}

/// How many of the first `count` items are visible messages.
pub open spec fn visible_messages(items: Seq<Json>, count: int) -> nat
    decreases count,
{
    if count <= 0 {
        0
    } else {
        visible_messages(items, count - 1) + if is_visible_message(items[count - 1]) {
            1nat
        } else {
            0
        }
    }
}

/// The first `count` items without the calls of the bridge's tools.
pub open spec fn client_items(items: Seq<Json>, count: int) -> Seq<Json>
    decreases count,
{
    if count <= 0 {
        Seq::empty()
    } else {
        let earlier = client_items(items, count - 1);
        if is_internal_call(items[count - 1]) {
            earlier
        } else {
            earlier.push(items[count - 1])
        }
    }
}

/// A content part with a text.
pub open spec fn text_part(text: Seq<char>) -> Json {
    Json::Object(
        no_members().insert("type"@, json_str("output_text")).insert(
            "text"@,
            Json::Str(text),
        ).insert("annotations"@, Json::Array(Seq::empty())),
    )
}

/// The content parts for the first `count` of the shown texts, without the blank ones.
pub open spec fn text_parts(texts: Seq<VisibleText>, count: int) -> Seq<Json>
    decreases count,
{
    if count <= 0 {
        Seq::empty()
    } else {
        let earlier = text_parts(texts, count - 1);
        if is_blank(texts[count - 1].text) {
            earlier
        } else {
            earlier.push(text_part(texts[count - 1].text))
        }
    }
}

/// The first item id at or after `from`.
pub open spec fn first_item_id(texts: Seq<VisibleText>, from: int) -> Option<Seq<char>>
    decreases texts.len() - from,
{
    if from < 0 || from >= texts.len() {
        None
    } else {
        match texts[from].key.item_id {
            Some(id) => Some(id),
            None => first_item_id(texts, from + 1),
        }
    }
}

/// The id of a message that the bridge makes up for a response.
pub open spec fn synthetic_message_id(response_id: Option<Seq<char>>) -> Seq<char> {
    match response_id {
        Some(id) if id.len() > 0 => "synthetic_assistant_"@ + id,
        _ => "synthetic_assistant"@,
    }
}

/// The message that carries the shown texts, if any of them is not blank.
pub open spec fn synthetic_message(
    response_id: Option<Seq<char>>,
    texts: Seq<VisibleText>,
) -> Option<Json> {
    let parts = text_parts(texts, texts.len() as int);
    let id = match first_item_id(texts, 0) {
        Some(id) => id,
        None => synthetic_message_id(response_id),
    };
    if parts.len() == 0 {
        None
    } else {
        Some(
            Json::Object(
                no_members().insert("id"@, Json::Str(id)).insert(
                    "type"@,
                    json_str("message"),
                ).insert("role"@, json_str("assistant")).insert("content"@, Json::Array(parts)),
            ),
        )
    }
}

/// The output that the client sees: the items without the calls of the bridge's tools, and a
/// message with the shown texts when no visible message is left.
pub open spec fn client_output(
    items: Seq<Json>,
    response_id: Option<Seq<char>>,
    texts: Seq<VisibleText>,
) -> Seq<Json> {
    let kept = client_items(items, items.len() as int);
    match synthetic_message(response_id, texts) {
        Some(message) if visible_messages(kept, kept.len() as int) == 0 => kept.push(message),
        _ => kept,
    }
}

/// Numbers that describe how the output of a completed response was changed.
#[derive(Debug, Clone, Copy, PartialEq, Eq, Structural)]
pub struct CompletedSanitizationDiagnostics {
    pub sanitized_internal_function_call_count: usize,
    pub sanitized_compaction_count: usize,
    pub completed_visible_message_count: usize,
}

impl Default for CompletedSanitizationDiagnostics {
    fn default() -> (diagnostics: Self)
        ensures
            diagnostics.sanitized_internal_function_call_count == 0,
            diagnostics.sanitized_compaction_count == 0,
            diagnostics.completed_visible_message_count == 0,
    {
        CompletedSanitizationDiagnostics {
            sanitized_internal_function_call_count: 0,
            sanitized_compaction_count: 0,
            completed_visible_message_count: 0,
        }
    }
}

/// The completed event that the client sees.
pub open spec fn client_completed(event: Json, texts: Seq<VisibleText>) -> Json {
    match (event, json_field(event, "response"@)) {
        (Json::Object(members), Some(Json::Object(response))) => {
            let id = event_response_id(event);
            let output = match member(response, "output"@) {
                Some(Json::Array(items)) => Some(client_output(items, id, texts)),
                _ => match synthetic_message(id, texts) {
                    Some(message) => Some(seq![message]),
                    None => None,
                },
            };
            match output {
                Some(items) => Json::Object(
                    members.insert(
                        "response"@,
                        Json::Object(response.insert("output"@, Json::Array(items))),
                    ),
                ),
                None => event,
            }
        },
        _ => event,
    }
}

/// How many visible messages the client finds in the completed event.
pub open spec fn completed_visible_messages(event: Json, texts: Seq<VisibleText>) -> nat {
    match json_field(event, "response"@) {
        Some(Json::Object(response)) => match member(response, "output"@) {
            Some(Json::Array(items)) => {
                let output = client_output(items, event_response_id(event), texts);
                visible_messages(output, output.len() as int)
            },
            _ => if synthetic_message(event_response_id(event), texts) is Some {
                1
            } else {
                0
            },
        },
        _ => 0,
    }
}

/// How many calls of the bridge's tools were taken out of the completed event.
pub open spec fn completed_internal_calls(event: Json) -> int {
    match event_output(event) {
        Some(items) => items.len() - client_items(items, items.len() as int).len(),
        None => 0,
    }
}

/// The id of the response that an event is about.
pub fn response_id_from_event<'a>(event: &'a Value) -> (id: Option<&'a str>)
    ensures
        optional_str(id) == event_response_id(json_view(*event)),
{
    match text_of(field(event, "response_id")) {
        Some(id) => Some(id),
        None => text_of(field_of(field(event, "response"), "id")),
    }
}

fn called_tool_name<'a>(item: &'a Value) -> (name: Option<&'a str>)
    ensures
        optional_str(name) == called_tool(json_view(*item)),
{
    match field(item, "name") {
        Some(name) => text_of(Some(name)),
        None => text_of(field(item, "tool_name")),
    }
}

/// Whether an item is a call of one of the bridge's tools.
pub fn is_internal_tool_call_item(item: &Value) -> (matched: bool)
    ensures
        matched == is_internal_call(json_view(*item)),
{
    field_is(item, "type", "function_call") && match called_tool_name(item) {
        Some(name) => is_internal_tool_name(name),
        None => false,
    }
}

/// Whether an item is a call of a tool of the client.
pub fn is_forwarded_external_tool_call_item(item: &Value) -> (matched: bool)
    ensures
        matched == is_external_call(json_view(*item)),
{
    field_is(item, "type", "function_call") && match called_tool_name(item) {
        Some(name) => !is_internal_tool_name(name),
        None => false,
    }
}

/// Whether an item is a generated image.
pub fn has_image_generation_result(item: &Value) -> (matched: bool)
    ensures
        matched == is_image(json_view(*item)),
{
    field_is(item, "type", "image_generation_call") && match text_of(field(item, "result")) {
        Some(result) => !text_is_blank(result),
        None => false,
    }
}

/// Whether an item marks a change of the conversation's context.
pub fn is_forwarded_marker_like_item(item: &Value) -> (matched: bool)
    ensures
        matched == is_marker(json_view(*item)),
{
    field_is(item, "type", "compaction") || field_is(item, "type", "context")
}

/// Whether an item is a message of the assistant with text that the client can see.
pub fn assistant_message_has_visible_output_text(item: &Value) -> (visible: bool)
    ensures
        visible == is_visible_message(json_view(*item)),
{
    if !field_is(item, "type", "message") || !field_is(item, "role", "assistant") {
        return false;
    }
    let content = match array_of(field(item, "content")) {
        Some(content) => content,
        None => return false,
    };
    let ghost parts = array_view(content@);
    let mut index: usize = 0;
    while index < content.len()
        invariant
            index <= content.len(),
            parts == array_view(content@),
            is_assistant_message(json_view(*item)),
            json_array(json_field(json_view(*item), "content"@)) == Some(parts),
            forall|i: int| 0 <= i < index ==> visible_part(#[trigger] parts[i]) is None,
        decreases content.len() - index,
    {
        assert(parts[index as int] == json_view(content@[index as int]));
        if field_is(&content[index], "type", "output_text") {
            if let Some(text) = text_of(field(&content[index], "text")) {
                if !text_is_blank(text) {
                    assert(visible_part(parts[index as int]) is Some);
                    return true;
                }
            }
        }
        index = index + 1;
    }
    false
}

fn synthetic_assistant_message_id(response_id: Option<&str>) -> (id: String)
    ensures
        id@ == synthetic_message_id(optional_str(response_id)),
{
    match response_id {
        Some(id) => if id.is_empty() {
            "synthetic_assistant".to_owned()
        } else {
            joined("synthetic_assistant_", id)
        },
        None => "synthetic_assistant".to_owned(),
    }
}

fn text_part_value(text: &str) -> (part: Value)
    ensures
        json_view(part) == text_part(text@),
{
    let annotations: Vec<Value> = Vec::new();
    assert(array_view(annotations@) =~= Seq::empty());
    let mut part = new_object();
    object_insert(&mut part, "type", text_value("output_text"));
    object_insert(&mut part, "text", text_value(text));
    object_insert(&mut part, "annotations", make_value(Node::Array(annotations)));
    make_value(Node::Object(part))
}

fn first_known_item_id(visible_text: &Vec<VisibleAssistantText>) -> (id: Option<String>)
    ensures
        optional_text(id) == first_item_id(texts_view(visible_text@), 0),
{
    let ghost texts = texts_view(visible_text@);
    let mut index: usize = 0;
    while index < visible_text.len()
        invariant
            index <= visible_text.len(),
            texts == texts_view(visible_text@),
            first_item_id(texts, 0) == first_item_id(texts, index as int),
        decreases visible_text.len() - index,
    {
        assert(texts[index as int] == visible_text@[index as int]@);
        if let Some(id) = &visible_text[index].key.item_id {
            return Some(id.clone());
        }
        index = index + 1;
    }
    None
}

/// The message that carries the shown texts, if any of them is not blank.
pub fn synthetic_assistant_message(
    response_id: Option<&str>,
    visible_text: &Vec<VisibleAssistantText>,
) -> (message: Option<Value>)
    ensures
        match message {
            Some(value) => synthetic_message(optional_str(response_id), texts_view(visible_text@))
                == Some(json_view(value)),
            None => synthetic_message(optional_str(response_id), texts_view(visible_text@)) is None,
        },
{
    let ghost texts = texts_view(visible_text@);
    let mut content: Vec<Value> = Vec::new();
    let mut index: usize = 0;
    while index < visible_text.len()
        invariant
            index <= visible_text.len(),
            texts == texts_view(visible_text@),
            array_view(content@) =~= text_parts(texts, index as int),
        decreases visible_text.len() - index,
    {
        assert(texts[index as int] == visible_text@[index as int]@);
        if !text_is_blank(visible_text[index].text.as_str()) {
            let ghost before = array_view(content@);
            content.push(text_part_value(visible_text[index].text.as_str()));
            assert(array_view(content@) =~= before.push(text_part(texts[index as int].text)));
        }
        index = index + 1;
    }
    if content.len() == 0 {
        assert(array_view(content@).len() == 0);
        return None;
    }
    assert(array_view(content@).len() > 0);
    let id = match first_known_item_id(visible_text) {
        Some(id) => id,
        None => synthetic_assistant_message_id(response_id),
    };
    let mut message = new_object();
    object_insert(&mut message, "id", text_value(id.as_str()));
    object_insert(&mut message, "type", text_value("message"));
    object_insert(&mut message, "role", text_value("assistant"));
    object_insert(&mut message, "content", make_value(Node::Array(content)));
    Some(make_value(Node::Object(message)))
}

fn count_visible_messages(items: &Vec<Value>) -> (count: usize)
    ensures
        count == visible_messages(array_view(items@), items@.len() as int),
{
    let ghost documents = array_view(items@);
    let mut count: usize = 0;
    let mut index: usize = 0;
    while index < items.len()
        invariant
            index <= items.len(),
            documents == array_view(items@),
            count == visible_messages(documents, index as int),
            count <= index,
        decreases items.len() - index,
    {
        assert(documents[index as int] == json_view(items@[index as int]));
        if assistant_message_has_visible_output_text(&items[index]) {
            count = count + 1;
        }
        index = index + 1;
    }
    count
}

fn items_for_client(items: &Vec<Value>) -> (kept: Vec<Value>)
    ensures
        array_view(kept@) == client_items(array_view(items@), items@.len() as int),
        kept@.len() <= items@.len(),
{
    let ghost documents = array_view(items@);
    let mut kept: Vec<Value> = Vec::new();
    let mut index: usize = 0;
    while index < items.len()
        invariant
            index <= items.len(),
            kept@.len() <= index,
            documents == array_view(items@),
            array_view(kept@) =~= client_items(documents, index as int),
        decreases items.len() - index,
    {
        assert(documents[index as int] == json_view(items@[index as int]));
        if !is_internal_tool_call_item(&items[index]) {
            let ghost before = array_view(kept@);
            kept.push(items[index].clone());
            assert(array_view(kept@) =~= before.push(documents[index as int]));
        }
        index = index + 1;
    }
    kept
}

/// The completed event that the client sees, with numbers that describe the change. Items that
/// mark a compaction stay in place.
pub fn sanitized_completed_event_with_diagnostics(
    event: &Value,
    visible_text: &Vec<VisibleAssistantText>,
) -> (result: (Value, CompletedSanitizationDiagnostics))
    ensures
        json_view(result.0) == client_completed(json_view(*event), texts_view(visible_text@)),
        result.1.sanitized_internal_function_call_count == completed_internal_calls(
            json_view(*event),
        ),
        result.1.sanitized_compaction_count == 0,
        result.1.completed_visible_message_count == completed_visible_messages(
            json_view(*event),
            texts_view(visible_text@),
        ),
{
    let mut diagnostics = CompletedSanitizationDiagnostics::default();
    let members = match object_of(Some(event)) {
        Some(members) => members,
        None => return (event.clone(), diagnostics),
    };
    let response = match object_of(object_get(members, "response")) {
        Some(response) => response,
        None => return (event.clone(), diagnostics),
    };
    let ghost texts = texts_view(visible_text@);
    let synthetic = synthetic_assistant_message(response_id_from_event(event), visible_text);
    let output: Vec<Value> = match array_of(object_get(response, "output")) {
        Some(items) => {
            let mut output = items_for_client(items);
            diagnostics.sanitized_internal_function_call_count = items.len() - output.len();
            let visible: usize = count_visible_messages(&output);
            diagnostics.completed_visible_message_count = visible;
            if visible == 0 {
                if let Some(message) = synthetic {
                    let ghost kept = array_view(output@);
                    output.push(message);
                    assert(array_view(output@) =~= kept.push(json_view(message)));
                    diagnostics.completed_visible_message_count = count_visible_messages(&output);
                }
            }
            output
        },
        None => match synthetic {
            Some(message) => {
                diagnostics.completed_visible_message_count = 1;
                let mut output: Vec<Value> = Vec::new();
                output.push(message);
                assert(array_view(output@) =~= seq![json_view(message)]);
                output
            },
            None => return (event.clone(), diagnostics),
        },
    };
    let mut new_response = response.clone();
    object_insert(&mut new_response, "output", make_value(Node::Array(output)));
    let mut new_members = members.clone();
    object_insert(&mut new_members, "response", make_value(Node::Object(new_response)));
    (make_value(Node::Object(new_members)), diagnostics)
}

/// What the client was shown of a response, in numbers that stop at the largest one.
#[derive(Debug, Clone)]
pub struct DownstreamObservableOutputState {
    pub forwarded_visible_text_delta_count: usize,
    pub forwarded_external_tool_call_count: usize,
    pub forwarded_image_generation_count: usize,
    pub forwarded_marker_like_output_count: usize,
    pub final_visible_message_count: usize,
    pub final_external_tool_call_count: usize,
    pub final_image_generation_count: usize,
    pub final_marker_like_output_count: usize,
    pub last_upstream_event_type: Option<String>,
}

/// The contents of a [`DownstreamObservableOutputState`].
pub struct Observed {
    pub text_deltas: nat,
    pub external_calls: nat,
    pub images: nat,
    pub markers: nat,
    pub final_messages: nat,
    pub final_external_calls: nat,
    pub final_images: nat,
    pub final_markers: nat,
    pub last_event_type: Option<Seq<char>>,
}

impl View for DownstreamObservableOutputState {
    type V = Observed;

    open spec fn view(&self) -> Observed {
        Observed {
            text_deltas: self.forwarded_visible_text_delta_count as nat,
            external_calls: self.forwarded_external_tool_call_count as nat,
            images: self.forwarded_image_generation_count as nat,
            markers: self.forwarded_marker_like_output_count as nat,
            final_messages: self.final_visible_message_count as nat,
            final_external_calls: self.final_external_tool_call_count as nat,
            final_images: self.final_image_generation_count as nat,
            final_markers: self.final_marker_like_output_count as nat,
            last_event_type: optional_text(self.last_upstream_event_type),
        }
    }
}

/// Nothing was shown.
pub open spec fn nothing_observed() -> Observed {
    Observed {
        text_deltas: 0,
        external_calls: 0,
        images: 0,
        markers: 0,
        final_messages: 0,
        final_external_calls: 0,
        final_images: 0,
        final_markers: 0,
        last_event_type: None,
    }
}

/// One more, up to the largest number.
pub open spec fn one_more(count: nat) -> nat {
    if count < usize::MAX {
        count + 1
    } else {
        count
    }
}

/// Whether the client was shown anything that counts as output.
pub open spec fn is_observable(observed: Observed) -> bool {
    observed.text_deltas > 0 || observed.external_calls > 0 || observed.images > 0
        || observed.markers > 0 || observed.final_messages > 0 || observed.final_external_calls > 0
        || observed.final_images > 0 || observed.final_markers > 0
}

/// What was shown after an event was forwarded.
pub open spec fn observed_with_event(
    observed: Observed,
    event_type: Seq<char>,
    event: Json,
) -> Observed {
    if event_type == "response.output_text.delta"@ {
        Observed { text_deltas: one_more(observed.text_deltas), ..observed }
    } else if event_type == "response.function_call_arguments.delta"@ || event_type
        == "response.function_call_arguments.done"@ {
        Observed { external_calls: one_more(observed.external_calls), ..observed }
    } else if event_type == "response.output_item.added"@ || event_type
        == "response.output_item.done"@ {
        match json_field(event, "item"@) {
            Some(item) => if is_external_call(item) {
                Observed { external_calls: one_more(observed.external_calls), ..observed }
            } else if is_image(item) {
                Observed { images: one_more(observed.images), ..observed }
            } else if is_marker(item) {
                Observed { markers: one_more(observed.markers), ..observed }
            } else {
                observed
            },
            None => observed,
        }
    } else {
        observed
    }
}

/// How many of the first `count` items are calls of the client's tools, images and markers.
pub open spec fn item_counts(items: Seq<Json>, count: int) -> (nat, nat, nat)
    decreases count,
{
    if count <= 0 {
        (0, 0, 0)
    } else {
        let (calls, images, markers) = item_counts(items, count - 1);
        let item = items[count - 1];
        if is_external_call(item) {
            (calls + 1, images, markers)
        } else if is_image(item) {
            (calls, images + 1, markers)
        } else if is_marker(item) {
            (calls, images, markers + 1)
        } else {
            (calls, images, markers)
        }
    }
}

/// What was shown after the completed event.
pub open spec fn observed_with_completed(
    observed: Observed,
    event: Json,
    visible_count: nat,
) -> Observed {
    let (calls, images, markers) = match event_output(event) {
        Some(items) => item_counts(items, items.len() as int),
        None => (0, 0, 0),
    };
    Observed {
        final_messages: visible_count,
        final_external_calls: calls,
        final_images: images,
        final_markers: markers,
        ..observed
    }
}

impl DownstreamObservableOutputState {
    pub fn new() -> (state: Self)
        ensures
            state@ == nothing_observed(),
    {
        DownstreamObservableOutputState {
            forwarded_visible_text_delta_count: 0,
            forwarded_external_tool_call_count: 0,
            forwarded_image_generation_count: 0,
            forwarded_marker_like_output_count: 0,
            final_visible_message_count: 0,
            final_external_tool_call_count: 0,
            final_image_generation_count: 0,
            final_marker_like_output_count: 0,
            last_upstream_event_type: None,
        }
    }

    /// Forgets everything.
    pub fn reset(&mut self)
        ensures
            final(self)@ == nothing_observed(),
    {
        *self = DownstreamObservableOutputState::new();
    }

    /// Whether the client was shown anything that counts as output.
    pub fn has_observable_output(&self) -> (found: bool)
        ensures
            found == is_observable(self@),
    {
        self.forwarded_visible_text_delta_count > 0 || self.forwarded_external_tool_call_count > 0
            || self.forwarded_image_generation_count > 0 || self.forwarded_marker_like_output_count
            > 0 || self.final_visible_message_count > 0 || self.final_external_tool_call_count > 0
            || self.final_image_generation_count > 0 || self.final_marker_like_output_count > 0
    }

    fn bump_external(&mut self)
        ensures
            final(self)@ == (Observed {
                external_calls: one_more(old(self)@.external_calls),
                ..old(self)@
            }),
    {
        self.forwarded_external_tool_call_count =
        self.forwarded_external_tool_call_count.saturating_add(1);
    }

    /// Notes that an event is forwarded.
    pub fn record_forwarded_observable_output(&mut self, event_type: &str, event: &Value)
        ensures
            final(self)@ == observed_with_event(old(self)@, event_type@, json_view(*event)),
    {
        if same_text(event_type, "response.output_text.delta") {
            self.forwarded_visible_text_delta_count =
            self.forwarded_visible_text_delta_count.saturating_add(1);
        } else if same_text(event_type, "response.function_call_arguments.delta") || same_text(
            event_type,
            "response.function_call_arguments.done",
        ) {
            self.bump_external();
        } else if same_text(event_type, "response.output_item.added") || same_text(
            event_type,
            "response.output_item.done",
        ) {
            if let Some(item) = field(event, "item") {
                if is_forwarded_external_tool_call_item(item) {
                    self.bump_external();
                } else if has_image_generation_result(item) {
                    self.forwarded_image_generation_count =
                    self.forwarded_image_generation_count.saturating_add(1);
                } else if is_forwarded_marker_like_item(item) {
                    self.forwarded_marker_like_output_count =
                    self.forwarded_marker_like_output_count.saturating_add(1);
                }
            }
        }
    }

    /// Notes the completed event.
    pub fn record_completed_observable_output(
        &mut self,
        event: &Value,
        diagnostics: &CompletedSanitizationDiagnostics,
    )
        ensures
            final(self)@ == observed_with_completed(
                old(self)@,
                json_view(*event),
                diagnostics.completed_visible_message_count as nat,
            ),
    {
        let mut calls: usize = 0;
        let mut images: usize = 0;
        let mut markers: usize = 0;
        if let Some(items) = array_of(field_of(field(event, "response"), "output")) {
            let ghost documents = array_view(items@);
            let mut index: usize = 0;
            while index < items.len()
                invariant
                    index <= items.len(),
                    documents == array_view(items@),
                    item_counts(documents, index as int) == (
                        calls as nat,
                        images as nat,
                        markers as nat,
                    ),
                    calls <= index,
                    images <= index,
                    markers <= index,
                decreases items.len() - index,
            {
                assert(documents[index as int] == json_view(items@[index as int]));
                if is_forwarded_external_tool_call_item(&items[index]) {
                    calls = calls + 1;
                } else if has_image_generation_result(&items[index]) {
                    images = images + 1;
                } else if is_forwarded_marker_like_item(&items[index]) {
                    markers = markers + 1;
                }
                index = index + 1;
            }
        }
        self.final_visible_message_count = diagnostics.completed_visible_message_count;
        self.final_external_tool_call_count = calls;
        self.final_image_generation_count = images;
        self.final_marker_like_output_count = markers;
    }
}

/// The failure of a response that showed the client nothing.
pub open spec fn no_output_failure(response_id: Option<Seq<char>>) -> Json {
    let response = match response_id {
        Some(id) if id.len() > 0 => no_members().insert("id"@, Json::Str(id)),
        _ => no_members(),
    };
    failure_json(
        response,
        "threadline_no_observable_output"@,
        "Response contained no observable output."@,
    )
}

/// A failure of a response.
pub open spec fn failure_json(
    response: Map<Seq<char>, Json>,
    code: Seq<char>,
    message: Seq<char>,
) -> Json {
    Json::Object(
        no_members().insert("type"@, json_str("response.failed")).insert(
            "response"@,
            Json::Object(response),
        ).insert("error"@, error_json(code, message)),
    )
}

/// The failure of the response that an event carries, with the given id where it has none.
pub open spec fn terminal_failure(
    response: Option<Json>,
    response_id: Option<Seq<char>>,
    code: Seq<char>,
    message: Seq<char>,
) -> Json {
    let members = match response {
        Some(Json::Object(members)) => members,
        _ => no_members(),
    };
    failure_json(
        match response_id {
            Some(id) if id.len() > 0 && !members.contains_key("id"@) => members.insert(
                "id"@,
                Json::Str(id),
            ),
            _ => members,
        },
        code,
        message,
    )
}

fn failure_value(response: serde_json::Map<String, Value>, code: &str, message: &str) -> (payload:
    Value)
    ensures
        json_view(payload) == failure_json(object_view(response), code@, message@),
{
    let mut payload = new_object();
    object_insert(&mut payload, "type", text_value("response.failed"));
    object_insert(&mut payload, "response", make_value(Node::Object(response)));
    object_insert(&mut payload, "error", crate::responses::sse::error_value(code, message));
    make_value(Node::Object(payload))
}

/// The failure of a response that showed the client nothing.
pub fn no_observable_output_failed_payload(response_id: Option<&str>) -> (payload: Value)
    ensures
        json_view(payload) == no_output_failure(optional_str(response_id)),
{
    let mut response = new_object();
    if let Some(id) = response_id {
        if !id.is_empty() {
            object_insert(&mut response, "id", text_value(id));
        }
    }
    failure_value(
        response,
        "threadline_no_observable_output",
        "Response contained no observable output.",
    )
}

/// The failure of the response that an event carries.
pub fn terminal_failed_payload(
    response: Option<&Value>,
    response_id: Option<&str>,
    code: &str,
    message: &str,
) -> (payload: Value)
    ensures
        json_view(payload) == terminal_failure(
            optional_json(response),
            optional_str(response_id),
            code@,
            message@,
        ),
{
    let mut members = match object_of(response) {
        Some(members) => members.clone(),
        None => new_object(),
    };
    if object_get(&members, "id").is_none() {
        if let Some(id) = response_id {
            if !id.is_empty() {
                object_insert(&mut members, "id", text_value(id));
            }
        }
    }
    failure_value(members, code, message)
}

/// The client never sees a call of one of the bridge's tools in a completed response, and every
/// other item of the upstream's output stays, in order.
pub proof fn law_completed_output_hides_internal_calls(
    items: Seq<Json>,
    response_id: Option<Seq<char>>,
    texts: Seq<VisibleText>,
)
    ensures
        forall|i: int|
            0 <= i < client_output(items, response_id, texts).len() ==> !is_internal_call(
                #[trigger] client_output(items, response_id, texts)[i],
            ),
        client_items(items, items.len() as int) =~= items.filter(|item: Json| !is_internal_call(item)),
        client_items(items, items.len() as int).is_prefix_of(
            client_output(items, response_id, texts),
        ),
{
    lemma_client_items(items, items.len() as int);
    assert(items.take(items.len() as int) =~= items);
    if let Some(message) = synthetic_message(response_id, texts) {
        reveal_strlit("type");
        reveal_strlit("id");
        reveal_strlit("role");
        reveal_strlit("content");
        reveal_strlit("message");
        reveal_strlit("function_call");
        assert("type"@.len() == 4 && "role"@.len() == 4 && "id"@.len() == 2 && "content"@.len() == 7);
        assert("type"@[0] == 't' && "role"@[0] == 'r');
        assert("message"@.len() == 7 && "function_call"@.len() == 13);
        assert(field_text_view(message, "type"@) == Some("message"@));
    }
}

proof fn lemma_client_items(items: Seq<Json>, count: int)
    requires
        0 <= count <= items.len(),
    ensures
        forall|i: int|
            0 <= i < client_items(items, count).len() ==> !is_internal_call(
                #[trigger] client_items(items, count)[i],
            ),
        client_items(items, count) =~= items.take(count).filter(
            |item: Json| !is_internal_call(item),
        ),
    decreases count,
{
    reveal(Seq::filter);
    if count > 0 {
        lemma_client_items(items, count - 1);
        assert(items.take(count).drop_last() =~= items.take(count - 1));
    }
}

} // verus!
