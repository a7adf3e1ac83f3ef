//! The bridge's own tools: their definitions, and the calls of them in the upstream event stream.

use crate::errors::ThreadlineError;
use crate::json::{
    array_view, field, field_is, field_text, field_text_view, json_field, json_str, json_text,
    json_view, lemma_item_decreases, lemma_listed_members_finite, lemma_member_decreases,
    make_value, member, new_object, no_members, object_entries, object_get, object_insert,
    object_view, open_value, optional_json, parse_json, parsed_json, text_value, value_str, Json,
    Node, ValueRef,
};
use crate::text::{same_text, starts_with_text, text_starts_with};
use serde_json::Value;
use vstd::prelude::*;

verus! {

/// Prefix of every tool that the bridge itself serves.
pub const INTERNAL_TOOL_PREFIX: &'static str = "threadline_";

pub const ECHO_TOOL_NAME: &'static str = "threadline_echo";

pub const START_JOB_TOOL_NAME: &'static str = "threadline_start_job";

pub const POLL_JOB_TOOL_NAME: &'static str = "threadline_poll_job";

pub const READ_JOB_OUTPUT_TOOL_NAME: &'static str = "threadline_read_job_output";

pub const GET_JOB_RESULT_TOOL_NAME: &'static str = "threadline_get_job_result";

pub const CANCEL_JOB_TOOL_NAME: &'static str = "threadline_cancel_job";

/// The output of a tool call that has not been sent upstream yet.
#[derive(Debug, Clone, PartialEq, Eq)]
pub struct PendingInternalToolOutput {
    pub call_id: String,
    pub output: String,
}

/// The contents of a [`PendingInternalToolOutput`].
pub struct ToolOutput {
    pub call_id: Seq<char>,
    pub output: Seq<char>,
}

impl View for PendingInternalToolOutput {
    type V = ToolOutput;

    open spec fn view(&self) -> ToolOutput {
        ToolOutput { call_id: self.call_id@, output: self.output@ }
    }
}

/// A call of one of the bridge's tools.
#[derive(Debug, Clone)]
pub struct InternalToolCall {
    pub call_id: String,
    pub name: String,
    pub arguments: Value,
}

/// The contents of an [`InternalToolCall`].
pub struct ToolCall {
    pub call_id: Seq<char>,
    pub name: Seq<char>,
    pub arguments: Json,
}

impl View for InternalToolCall {
    type V = ToolCall;

    open spec fn view(&self) -> ToolCall {
        ToolCall {
            call_id: self.call_id@,
            name: self.name@,
            arguments: json_view(self.arguments),
        }
    }
}

/// The contents of a list of outputs.
pub open spec fn outputs_view(outputs: Seq<PendingInternalToolOutput>) -> Seq<ToolOutput> {
    outputs.map_values(|output: PendingInternalToolOutput| output@)
}

/// Whether a tool name belongs to the bridge.
pub open spec fn is_internal_name(name: Seq<char>) -> bool {
    starts_with_text(name, INTERNAL_TOOL_PREFIX@)
}

/// Whether a tool name is given and belongs to the bridge.
pub open spec fn is_internal_text(name: Option<Seq<char>>) -> bool {
    match name {
        Some(text) => is_internal_name(text),
        None => false,
    }
}

/// Whether one of the bridge's tools is named anywhere in a document, under `name` or `tool_name`.
pub open spec fn names_internal_tool(document: Json) -> bool
    decreases document,
{
    match document {
        Json::Object(members) => exists|key: Seq<char>| #[trigger]
            members.contains_key(key) && (((key == "name"@ || key == "tool_name"@)
                && is_internal_text(json_text(Some(members[key])))) || names_internal_tool(
                members[key],
            )),
        Json::Array(items) => exists|i: int|
            0 <= i < items.len() && names_internal_tool(#[trigger] items[i]),
        _ => false,
    }
}

/// The arguments of a tool call: a text is read as JSON, and nothing stands for no arguments.
/// `None` when the text is no JSON document.
pub open spec fn tool_arguments(arguments: Option<Json>) -> Option<Json> {
    match arguments {
        Some(Json::Str(text)) => parsed_json(text),
        Some(Json::Null) | None => Some(Json::Object(no_members())),
        Some(value) => Some(value),
    }
}

/// Whether an event reports a finished call of one of the bridge's tools.
pub open spec fn reports_internal_call(event: Json) -> bool {
    &&& field_text_view(event, "type"@) == Some("response.output_item.done"@)
    &&& json_field(event, "item"@) matches Some(item) && {
        &&& field_text_view(item, "type"@) == Some("function_call"@)
        &&& is_internal_text(field_text_view(item, "name"@))
    }
}

/// The tool call that an event reports; the error case is a call without a `call_id` or with
/// arguments that are no JSON document.
pub open spec fn tool_call_of(event: Json) -> Result<Option<ToolCall>, ()> {
    if !reports_internal_call(event) {
        Ok(None)
    } else {
        let item = json_field(event, "item"@)->0;
        match (field_text_view(item, "call_id"@), tool_arguments(json_field(item, "arguments"@))) {
            (Some(call_id), Some(arguments)) => Ok(
                Some(ToolCall { call_id, name: field_text_view(item, "name"@)->0, arguments }),
            ),
            _ => Err(()),
        }
    }
}

/// The input item that hands a tool's output back to the upstream.
pub open spec fn followup_item(output: ToolOutput) -> Json {
    Json::Object(
        no_members().insert("type"@, json_str("function_call_output")).insert(
            "call_id"@,
            Json::Str(output.call_id),
        ).insert("output"@, Json::Str(output.output)),
    )
}

/// The input that hands a list of tool outputs back to the upstream.
pub open spec fn followup_input(outputs: Seq<ToolOutput>) -> Json {
    Json::Array(outputs.map_values(|output: ToolOutput| followup_item(output)))
}

/// A JSON schema that only names a type.
pub open spec fn type_schema(name: &str) -> Json {
    Json::Object(no_members().insert("type"@, json_str(name)))
}

/// The definition of a tool whose parameters are `properties`, of which `required` must be given.
pub open spec fn tool_definition_json(
    name: &str,
    description: &str,
    properties: Map<Seq<char>, Json>,
    required: &str,
) -> Json {
    let parameters = no_members().insert("type"@, json_str("object")).insert(
        "properties"@,
        Json::Object(properties),
    ).insert("required"@, Json::Array(seq![json_str(required)])).insert(
        "additionalProperties"@,
        Json::Bool(false),
    );
    Json::Object(
        no_members().insert("type"@, json_str("function")).insert("name"@, json_str(name)).insert(
            "description"@,
            json_str(description),
        ).insert("parameters"@, Json::Object(parameters)),
    )
}

pub const ECHO_DESCRIPTION: &'static str = "Return the provided value so Threadline can satisfy local tool loops without involving downstream clients.";

pub const START_JOB_DESCRIPTION: &'static str = "Start a background Threadline job for an allowed local command, return immediately with a job id, and avoid busy-polling when independent work is still available.";

pub const POLL_JOB_DESCRIPTION: &'static str = "Check a previously started Threadline job at a natural checkpoint for status updates, not in a tight loop.";

pub const READ_JOB_OUTPUT_DESCRIPTION: &'static str = "Read incremental output from a Threadline job using a previous output offset; preserve next_offset for the next read and notice truncated_before if older buffered output was dropped.";

pub const GET_JOB_RESULT_DESCRIPTION: &'static str = "Get the current or terminal result payload for a Threadline job after a terminal poll state or before final claims that depend on success or failure.";

pub const CANCEL_JOB_DESCRIPTION: &'static str = "Cancel a stuck or no-longer-useful Threadline job, then poll or get the result to confirm the terminal state.";

/// The schema of a command: a list of at least one string.
pub open spec fn command_schema() -> Json {
    Json::Object(
        no_members().insert("type"@, json_str("array")).insert(
            "items"@,
            type_schema("string"),
        ).insert("minItems"@, Json::Number(crate::json::JsonNumber::Unsigned(1))),
    )
}

/// The schema of an output offset: a number that is not negative.
pub open spec fn offset_schema() -> Json {
    Json::Object(
        no_members().insert("type"@, json_str("integer")).insert(
            "minimum"@,
            Json::Number(crate::json::JsonNumber::Unsigned(0)),
        ),
    )
}

/// The parameters of a tool that takes a job id.
pub open spec fn job_id_properties() -> Map<Seq<char>, Json> {
    no_members().insert("job_id"@, type_schema("string"))
}

/// The definitions of the bridge's tools.
pub open spec fn tool_definitions() -> Seq<Json> {
    seq![
        tool_definition_json(
            ECHO_TOOL_NAME,
            ECHO_DESCRIPTION,
            no_members().insert("value"@, type_schema("string")),
            "value",
        ),
        tool_definition_json(
            START_JOB_TOOL_NAME,
            START_JOB_DESCRIPTION,
            no_members().insert("command"@, command_schema()),
            "command",
        ),
        tool_definition_json(
            POLL_JOB_TOOL_NAME,
            POLL_JOB_DESCRIPTION,
            job_id_properties(),
            "job_id",
        ),
        tool_definition_json(
            READ_JOB_OUTPUT_TOOL_NAME,
            READ_JOB_OUTPUT_DESCRIPTION,
            job_id_properties().insert("offset"@, offset_schema()),
            "job_id",
        ),
        tool_definition_json(
            GET_JOB_RESULT_TOOL_NAME,
            GET_JOB_RESULT_DESCRIPTION,
            job_id_properties(),
            "job_id",
        ),
        tool_definition_json(
            CANCEL_JOB_TOOL_NAME,
            CANCEL_JOB_DESCRIPTION,
            job_id_properties(),
            "job_id",
        ),
    ]
}

/// Whether a list of tools holds one under `name`.
pub open spec fn has_tool_named(tools: Seq<Json>, name: Option<Seq<char>>) -> bool {
    name is Some && exists|i: int|
        0 <= i < tools.len() && field_text_view(#[trigger] tools[i], "name"@) == name
}

/// `existing` followed by those of `added` whose name is not taken yet.
pub open spec fn with_missing_tools(existing: Seq<Json>, added: Seq<Json>) -> Seq<Json>
    decreases added.len(),
{
    if added.len() == 0 {
        existing
    } else {
        let tools = with_missing_tools(existing, added.drop_last());
        if has_tool_named(tools, field_text_view(added.last(), "name"@)) {
            tools
        } else {
            tools.push(added.last())
        }
    }
}

/// A request's members with the bridge's tools among its tools. Tools that are no list stay as
/// they are.
pub open spec fn with_internal_tools(members: Map<Seq<char>, Json>) -> Map<Seq<char>, Json> {
    match member(members, "tools"@) {
        Some(Json::Array(existing)) => members.insert(
            "tools"@,
            Json::Array(with_missing_tools(existing, tool_definitions())),
        ),
        Some(Json::Null) | None => members.insert("tools"@, Json::Array(tool_definitions())),
        Some(_) => members,
    }
}

/// A copy of a list of values.
pub(crate) fn clone_values(values: &Vec<Value>) -> (copies: Vec<Value>)
    ensures
        array_view(copies@) == array_view(values@),
{
    let mut copies: Vec<Value> = Vec::new();
    let mut index: usize = 0;
    while index < values.len()
        invariant
            index <= values.len(),
            array_view(copies@) =~= array_view(values@).take(index as int),
        decreases values.len() - index,
    {
        let ghost before = array_view(copies@);
        copies.push(values[index].clone());
        assert(array_view(copies@) =~= before.push(array_view(values@)[index as int]));
        index = index + 1;
    }
    copies
}

impl PendingInternalToolOutput {
    pub fn new(call_id: String, output: String) -> (pending: Self)
        ensures
            pending@ == (ToolOutput { call_id: call_id@, output: output@ }),
    {
        PendingInternalToolOutput { call_id, output }
    }

    /// The call that the output answers.
    pub fn call_id(&self) -> (call_id: &str)
        ensures
            call_id@ == self@.call_id,
    {
        self.call_id.as_str()
    }

    /// The input item that hands the output back to the upstream.
    pub fn into_followup_input(self) -> (item: Value)
        ensures
            json_view(item) == followup_item(self@),
    {
        let mut item = new_object();
        object_insert(&mut item, "type", text_value("function_call_output"));
        object_insert(&mut item, "call_id", text_value(self.call_id.as_str()));
        object_insert(&mut item, "output", text_value(self.output.as_str()));
        make_value(Node::Object(item))
    }
}

impl InternalToolCall {
    /// The call of one of the bridge's tools that an upstream event reports, if it does.
    pub fn from_event(event: &Value) -> (call: Result<Option<Self>, ThreadlineError>)
        ensures
            match call {
                Ok(Some(found)) => tool_call_of(json_view(*event)) == Ok::<_, ()>(Some(found@)),
                Ok(None) => tool_call_of(json_view(*event)) == Ok::<Option<ToolCall>, ()>(None),
                Err(error) => tool_call_of(json_view(*event)) is Err && error
                    == ThreadlineError::InternalToolFailed,
            },
    {
        if !field_is(event, "type", "response.output_item.done") {
            return Ok(None);
        }
        let item = match field(event, "item") {
            Some(item) => item,
            None => return Ok(None),
        };
        if !field_is(item, "type", "function_call") {
            return Ok(None);
        }
        let name = match field_text(item, "name") {
            Some(name) => name,
            None => return Ok(None),
        };
        if !is_internal_tool_name(name) {
            return Ok(None);
        }
        let call_id = match field_text(item, "call_id") {
            Some(call_id) => call_id,
            None => return Err(ThreadlineError::InternalToolFailed),
        };
        match parse_arguments(field(item, "arguments")) {
            Ok(arguments) => Ok(
                Some(
                    InternalToolCall {
                        call_id: call_id.to_owned(),
                        name: name.to_owned(),
                        arguments,
                    },
                ),
            ),
            Err(error) => Err(error),
        }
    }
}

/// Adds the bridge's tools to a request.
pub fn inject_internal_tools(payload: &mut serde_json::Map<String, Value>)
    ensures
        object_view(*final(payload)) == with_internal_tools(object_view(*old(payload))),
{
    let internal_tools = internal_tool_definitions();
    let (existing, is_missing): (Option<Vec<Value>>, bool) = match object_get(payload, "tools") {
        Some(value) => match open_value(value) {
            ValueRef::Array(values) => (Some(clone_values(values)), false),
            ValueRef::Null => (None, true),
            _ => (None, false),
        },
        None => (None, true),
    };
    match existing {
        Some(values) => {
            let tools = add_missing_tools(values, internal_tools);
            object_insert(payload, "tools", make_value(Node::Array(tools)));
        },
        None => {
            if is_missing {
                object_insert(payload, "tools", make_value(Node::Array(internal_tools)));
            }
        },
    }
}

fn add_missing_tools(existing: Vec<Value>, added: Vec<Value>) -> (tools: Vec<Value>)
    ensures
        array_view(tools@) == with_missing_tools(array_view(existing@), array_view(added@)),
{
    let mut tools = existing;
    let mut index: usize = 0;
    let ghost all = array_view(added@);
    while index < added.len()
        invariant
            index <= added.len(),
            all == array_view(added@),
            array_view(tools@) == with_missing_tools(array_view(existing@), all.take(index as int)),
        decreases added.len() - index,
    {
        assert(all.take(index + 1).drop_last() =~= all.take(index as int));
        let present = match field_text(&added[index], "name") {
            Some(name) => contains_tool_named(&tools, name),
            None => false,
        };
        if !present {
            let ghost before = array_view(tools@);
            tools.push(added[index].clone());
            assert(array_view(tools@) =~= before.push(all[index as int]));
        }
        index = index + 1;
    }
    assert(all.take(index as int) =~= all);
    tools
}

fn contains_tool_named(tools: &Vec<Value>, name: &str) -> (found: bool)
    ensures
        found == has_tool_named(array_view(tools@), Some(name@)),
{
    let mut index: usize = 0;
    while index < tools.len()
        invariant
            index <= tools.len(),
            forall|i: int|
                0 <= i < index ==> field_text_view(#[trigger] array_view(tools@)[i], "name"@)
                    != Some(name@),
        decreases tools.len() - index,
    {
        if field_is(&tools[index], "name", name) {
            assert(field_text_view(array_view(tools@)[index as int], "name"@) == Some(name@));
            return true;
        }
        index = index + 1;
    }
    false
}

/// The input that hands a list of tool outputs back to the upstream.
pub fn build_followup_input(outputs: Vec<PendingInternalToolOutput>) -> (input: Value)
    ensures
        json_view(input) == followup_input(outputs_view(outputs@)),
{
    let mut items: Vec<Value> = Vec::new();
    let ghost expected = outputs_view(outputs@).map_values(
        |output: ToolOutput| followup_item(output),
    );
    let mut index: usize = 0;
    while index < outputs.len()
        invariant
            index <= outputs.len(),
            expected == outputs_view(outputs@).map_values(
                |output: ToolOutput| followup_item(output),
            ),
            array_view(items@) =~= expected.take(index as int),
        decreases outputs.len() - index,
    {
        let output = PendingInternalToolOutput::new(
            outputs[index].call_id.clone(),
            outputs[index].output.clone(),
        );
        let ghost before = array_view(items@);
        items.push(output.into_followup_input());
        assert(array_view(items@) =~= before.push(expected[index as int]));
        index = index + 1;
    }
    assert(array_view(items@) =~= expected);
    make_value(Node::Array(items))
}

/// Whether a tool name belongs to the bridge.
pub fn is_internal_tool_name(name: &str) -> (internal: bool)
    ensures
        internal == is_internal_name(name@),
{
    text_starts_with(name, INTERNAL_TOOL_PREFIX)
}

/// Whether one of the bridge's tools is named anywhere in an event.
pub fn event_contains_internal_tool_name(event: &Value) -> (found: bool)
    ensures
        found == names_internal_tool(json_view(*event)),
    decreases json_view(*event),
{
    match open_value(event) {
        ValueRef::Object(map) => {
            let ghost members = object_view(*map);
            let entries = object_entries(map);
            proof {
                let keys = Seq::new(entries@.len(), |i: int| entries@[i].0@);
                assert forall|key: Seq<char>| #[trigger] members.contains_key(key) implies
                    keys.contains(key) by {
                    let i = choose|i: int| 0 <= i < entries@.len() && (#[trigger] entries@[i]).0@ == key;
                    assert(keys[i] == key);
                }
                lemma_listed_members_finite(members, keys);
            }
            let mut index: usize = 0;
            while index < entries.len()
                invariant
                    index <= entries.len(),
                    json_view(*event) == Json::Object(members),
                    members.dom().finite(),
                    forall|i: int|
                        0 <= i < entries@.len() ==> member(members, (#[trigger] entries@[i]).0@)
                            == Some(json_view(*entries@[i].1)),
                    forall|i: int|
                        0 <= i < index ==> !((((#[trigger] entries@[i]).0@ == "name"@
                            || entries@[i].0@ == "tool_name"@) && is_internal_text(
                            json_text(Some(json_view(*entries@[i].1))),
                        )) || names_internal_tool(json_view(*entries@[i].1))),
                decreases entries.len() - index,
            {
                let key = entries[index].0;
                let nested = entries[index].1;
                assert(member(members, entries@[index as int].0@) == Some(json_view(*nested)));
                proof {
                    lemma_member_decreases(json_view(*event), members, key@);
                }
                if same_text(key.as_str(), "name") || same_text(key.as_str(), "tool_name") {
                    if let Some(name) = value_str(nested) {
                        if is_internal_tool_name(name) {
                            assert(members.contains_key(key@));
                            return true;
                        }
                    }
                }
                if event_contains_internal_tool_name(nested) {
                    assert(members.contains_key(key@));
                    return true;
                }
                index = index + 1;
            }
            proof {
                assert forall|key: Seq<char>| #[trigger] members.contains_key(key) implies !(((key
                    == "name"@ || key == "tool_name"@) && is_internal_text(
                    json_text(Some(members[key])),
                )) || names_internal_tool(members[key])) by {
                    let i = choose|i: int| 0 <= i < entries@.len() && (#[trigger] entries@[i]).0@ == key;
                    assert(member(members, entries@[i].0@) == Some(json_view(*entries@[i].1)));
                }
            }
            false
        },
        ValueRef::Array(values) => {
            let mut index: usize = 0;
            while index < values.len()
                invariant
                    index <= values.len(),
                    json_view(*event) == Json::Array(array_view(values@)),
                    forall|i: int|
                        0 <= i < index ==> !names_internal_tool(#[trigger] array_view(values@)[i]),
                decreases values.len() - index,
            {
                assert(array_view(values@)[index as int] == json_view(values@[index as int]));
                proof {
                    lemma_item_decreases(json_view(*event), array_view(values@), index as int);
                }
                if event_contains_internal_tool_name(&values[index]) {
                    let ghost items = json_view(*event)->Array_0;
                    assert(names_internal_tool(items[index as int]));
                    assert(exists|i: int|
                        0 <= i < items.len() && names_internal_tool(#[trigger] items[i]));
                    assert(names_internal_tool(Json::Array(items)));
                    return true;
                }
                index = index + 1;
            }
            false
        },
        _ => false,
    }
}

fn parse_arguments(arguments: Option<&Value>) -> (parsed: Result<Value, ThreadlineError>)
    ensures
        match parsed {
            Ok(value) => tool_arguments(optional_json(arguments)) == Some(json_view(value)),
            Err(error) => tool_arguments(optional_json(arguments)) is None && error
                == ThreadlineError::InternalToolFailed,
        },
{
    match arguments {
        Some(value) => match open_value(value) {
            ValueRef::Str(text) => match parse_json(text.as_str()) {
                Ok(parsed) => Ok(parsed),
                Err(_) => Err(ThreadlineError::InternalToolFailed),
            },
            ValueRef::Null => Ok(make_value(Node::Object(new_object()))),
            _ => Ok(value.clone()),
        },
        None => Ok(make_value(Node::Object(new_object()))),
    }
}

fn type_schema_value(name: &str) -> (schema: Value)
    ensures
        json_view(schema) == type_schema(name),
{
    let mut schema = new_object();
    object_insert(&mut schema, "type", text_value(name));
    make_value(Node::Object(schema))
}

fn tool_definition(
    name: &str,
    description: &str,
    properties: serde_json::Map<String, Value>,
    required: &str,
) -> (definition: Value)
    ensures
        json_view(definition) == tool_definition_json(
            name,
            description,
            object_view(properties),
            required,
        ),
{
    let mut required_names: Vec<Value> = Vec::new();
    required_names.push(text_value(required));
    assert(array_view(required_names@) =~= seq![json_str(required)]);
    let mut parameters = new_object();
    object_insert(&mut parameters, "type", text_value("object"));
    object_insert(&mut parameters, "properties", make_value(Node::Object(properties)));
    object_insert(&mut parameters, "required", make_value(Node::Array(required_names)));
    object_insert(&mut parameters, "additionalProperties", make_value(Node::Bool(false)));
    let mut definition = new_object();
    object_insert(&mut definition, "type", text_value("function"));
    object_insert(&mut definition, "name", text_value(name));
    object_insert(&mut definition, "description", text_value(description));
    object_insert(&mut definition, "parameters", make_value(Node::Object(parameters)));
    make_value(Node::Object(definition))
}

fn job_id_parameters() -> (properties: serde_json::Map<String, Value>)
    ensures
        object_view(properties) == job_id_properties(),
{
    let mut properties = new_object();
    object_insert(&mut properties, "job_id", type_schema_value("string"));
    properties
}

/// The definitions of the bridge's tools.
pub fn internal_tool_definitions() -> (definitions: Vec<Value>)
    ensures
        array_view(definitions@) == tool_definitions(),
{
    let mut echo_parameters = new_object();
    object_insert(&mut echo_parameters, "value", type_schema_value("string"));

    let mut command = new_object();
    object_insert(&mut command, "type", text_value("array"));
    object_insert(&mut command, "items", type_schema_value("string"));
    object_insert(&mut command, "minItems", make_value(Node::Unsigned(1)));
    let mut start_parameters = new_object();
    object_insert(&mut start_parameters, "command", make_value(Node::Object(command)));

    let mut offset = new_object();
    object_insert(&mut offset, "type", text_value("integer"));
    object_insert(&mut offset, "minimum", make_value(Node::Unsigned(0)));
    let mut read_parameters = job_id_parameters();
    object_insert(&mut read_parameters, "offset", make_value(Node::Object(offset)));

    let mut definitions: Vec<Value> = Vec::new();
    definitions.push(tool_definition(ECHO_TOOL_NAME, ECHO_DESCRIPTION, echo_parameters, "value"));
    definitions.push(
        tool_definition(START_JOB_TOOL_NAME, START_JOB_DESCRIPTION, start_parameters, "command"),
    );
    definitions.push(
        tool_definition(POLL_JOB_TOOL_NAME, POLL_JOB_DESCRIPTION, job_id_parameters(), "job_id"),
    );
    definitions.push(
        tool_definition(
            READ_JOB_OUTPUT_TOOL_NAME,
            READ_JOB_OUTPUT_DESCRIPTION,
            read_parameters,
            "job_id",
        ),
    );
    definitions.push(
        tool_definition(
            GET_JOB_RESULT_TOOL_NAME,
            GET_JOB_RESULT_DESCRIPTION,
            job_id_parameters(),
            "job_id",
        ),
    );
    definitions.push(
        tool_definition(CANCEL_JOB_TOOL_NAME, CANCEL_JOB_DESCRIPTION, job_id_parameters(), "job_id"),
    );
    assert(array_view(definitions@) =~= tool_definitions());
    definitions
}

/// The name of a tool.
pub open spec fn tool_name(tool: Json) -> Option<Seq<char>> {
    match tool {
        Json::Object(members) => match member(members, "name"@) {
            Some(Json::Str(name)) => Some(name),
            _ => None,
        },
        _ => None,
    }
}

/// Whether a list of tools has one with a name.
pub open spec fn lists_tool(tools: Seq<Json>, name: Seq<char>) -> bool {
    exists|i: int| 0 <= i < tools.len() && tool_name(#[trigger] tools[i]) == Some(name)
}

proof fn lemma_missing_tools(existing: Seq<Json>, added: Seq<Json>)
    ensures
        existing.is_prefix_of(with_missing_tools(existing, added)),
        forall|i: int|
            0 <= i < added.len() && field_text_view(#[trigger] added[i], "name"@) is Some
                ==> has_tool_named(
                with_missing_tools(existing, added),
                field_text_view(added[i], "name"@),
            ),
        forall|i: int|
            existing.len() <= i < with_missing_tools(existing, added).len() ==> added.contains(
                #[trigger] with_missing_tools(existing, added)[i],
            ) && !has_tool_named(
                existing,
                field_text_view(with_missing_tools(existing, added)[i], "name"@),
            ),
        forall|i: int, j: int|
            existing.len() <= i < j < with_missing_tools(existing, added).len() && field_text_view(
                #[trigger] with_missing_tools(existing, added)[i],
                "name"@,
            ) is Some ==> field_text_view(with_missing_tools(existing, added)[i], "name"@)
                != field_text_view(#[trigger] with_missing_tools(existing, added)[j], "name"@),
    decreases added.len(),
{
    if added.len() > 0 {
        let before = with_missing_tools(existing, added.drop_last());
        let after = with_missing_tools(existing, added);
        lemma_missing_tools(existing, added.drop_last());
        assert forall|i: int, j: int|
            existing.len() <= i < j < after.len() && field_text_view(
                #[trigger] after[i],
                "name"@,
            ) is Some implies field_text_view(after[i], "name"@) != field_text_view(
            #[trigger] after[j],
            "name"@,
        ) by {
            assert(after[i] == before[i]);
            if j < before.len() {
                assert(after[j] == before[j]);
            } else {
                assert(field_text_view(before[i], "name"@) is Some);
            }
        }
        assert forall|i: int|
            0 <= i < added.len() && field_text_view(
                #[trigger] added[i],
                "name"@,
            ) is Some implies has_tool_named(after, field_text_view(added[i], "name"@)) by {
            if i < added.len() - 1 {
                assert(added.drop_last()[i] == added[i]);
                let name = field_text_view(added[i], "name"@);
                let k = choose|k: int|
                    0 <= k < before.len() && field_text_view(#[trigger] before[k], "name"@) == name;
                assert(after[k] == before[k]);
            } else if !has_tool_named(before, field_text_view(added.last(), "name"@)) {
                assert(after[after.len() - 1] == added[i]);
            }
        }
        assert forall|i: int| existing.len() <= i < after.len() implies added.contains(
            #[trigger] after[i],
        ) && !has_tool_named(existing, field_text_view(after[i], "name"@)) by {
            if i < before.len() {
                assert(after[i] == before[i]);
                let k = choose|k: int|
                    0 <= k < added.drop_last().len() && added.drop_last()[k] == before[i];
                assert(added[k] == after[i]);
            } else {
                assert(added[added.len() - 1] == after[i]);
                let name = field_text_view(after[i], "name"@);
                if has_tool_named(existing, name) {
                    let k = choose|k: int|
                        0 <= k < existing.len() && field_text_view(
                            #[trigger] existing[k],
                            "name"@,
                        ) == name;
                    assert(before[k] == existing[k]);
                }
            }
        }
    }
}

/// The bridge's tools are added to the client's: the client's own tools stay where they were, in
/// their order; behind them stand only tools of the bridge that the client's list does not name, none
/// of them twice;
/// and every tool of the bridge can then be found by its name. The rest of the request is not
/// touched, and neither is a list of tools that is no list.
pub proof fn law_client_tools_are_kept(members: Map<Seq<char>, Json>, key: Seq<char>)
    ensures
        key != "tools"@ ==> member(with_internal_tools(members), key) == member(members, key),
        key == "tools"@ ==> match member(members, key) {
            None | Some(Json::Null) => member(with_internal_tools(members), key) == Some(
                Json::Array(tool_definitions()),
            ),
            Some(Json::Array(existing)) => member(with_internal_tools(members), key) matches Some(
                Json::Array(tools),
            ) && {
                &&& existing.is_prefix_of(tools)
                &&& forall|i: int|
                    existing.len() <= i < tools.len() ==> tool_definitions().contains(
                        #[trigger] tools[i],
                    )
                &&& forall|i: int|
                    existing.len() <= i < tools.len() ==> !lists_tool(
                        existing,
                        tool_name(#[trigger] tools[i])->0,
                    )
                &&& forall|i: int, j: int|
                    existing.len() <= i < j < tools.len() ==> tool_name(#[trigger] tools[i])
                        != tool_name(#[trigger] tools[j])
                &&& forall|k: int|
                    0 <= k < tool_definitions().len() ==> lists_tool(
                        tools,
                        tool_name(#[trigger] tool_definitions()[k])->0,
                    )
            },
            Some(other) => member(with_internal_tools(members), key) == Some(other),
        },
{
    if let Some(Json::Array(existing)) = member(members, "tools"@) {
        let added = tool_definitions();
        let tools = with_missing_tools(existing, added);
        lemma_missing_tools(existing, added);
        lemma_definitions();
        assert forall|i: int| existing.len() <= i < tools.len() implies !lists_tool(
            existing,
            tool_name(#[trigger] tools[i])->0,
        ) by {
            let d = choose|d: int| 0 <= d < added.len() && added[d] == tools[i];
            assert(tool_name(added[d]) is Some);
            let name = tool_name(tools[i]);
            assert(name == field_text_view(tools[i], "name"@));
            if lists_tool(existing, name->0) {
                let k = choose|k: int|
                    0 <= k < existing.len() && tool_name(#[trigger] existing[k]) == name;
                assert(field_text_view(existing[k], "name"@) == name);
            }
        }
        assert forall|i: int, j: int| existing.len() <= i < j < tools.len() implies tool_name(
            #[trigger] tools[i],
        ) != tool_name(#[trigger] tools[j]) by {
            let d = choose|d: int| 0 <= d < added.len() && added[d] == tools[i];
            assert(tool_name(added[d]) is Some);
            assert(tool_name(tools[i]) == field_text_view(tools[i], "name"@));
            assert(tool_name(tools[j]) == field_text_view(tools[j], "name"@));
        }
        assert forall|k: int| 0 <= k < added.len() implies lists_tool(
            tools,
            tool_name(#[trigger] added[k])->0,
        ) by {
            assert(tool_name(added[k]) == field_text_view(added[k], "name"@));
            assert(tool_name(added[k]) is Some);
            let i = choose|i: int|
                0 <= i < tools.len() && field_text_view(#[trigger] tools[i], "name"@)
                    == field_text_view(added[k], "name"@);
            assert(tool_name(tools[i]) == field_text_view(tools[i], "name"@));
        }
    }
}

proof fn lemma_definitions()
    ensures
        tool_definitions().len() == 6,
        forall|k: int| 0 <= k < 6 ==> tool_name(#[trigger] tool_definitions()[k]) is Some,
        tool_name(tool_definitions()[0]) == Some("threadline_echo"@),
        tool_name(tool_definitions()[1]) == Some("threadline_start_job"@),
        tool_name(tool_definitions()[2]) == Some("threadline_poll_job"@),
        tool_name(tool_definitions()[3]) == Some("threadline_read_job_output"@),
        tool_name(tool_definitions()[4]) == Some("threadline_get_job_result"@),
        tool_name(tool_definitions()[5]) == Some("threadline_cancel_job"@),
{
    reveal_strlit("name");
    reveal_strlit("type");
    reveal_strlit("description");
    reveal_strlit("parameters");
    assert("name"@.len() == 4 && "name"@[0] == 'n' && "type"@[0] == 't');
    assert("description"@.len() == 11 && "parameters"@.len() == 10);
    let tools = tool_definitions();
    assert(tool_name(tools[0]) == Some(ECHO_TOOL_NAME@));
    assert(tool_name(tools[1]) == Some(START_JOB_TOOL_NAME@));
    assert(tool_name(tools[2]) == Some(POLL_JOB_TOOL_NAME@));
    assert(tool_name(tools[3]) == Some(READ_JOB_OUTPUT_TOOL_NAME@));
    assert(tool_name(tools[4]) == Some(GET_JOB_RESULT_TOOL_NAME@));
    assert(tool_name(tools[5]) == Some(CANCEL_JOB_TOOL_NAME@));
    assert forall|k: int| 0 <= k < 6 implies tool_name(#[trigger] tools[k]) is Some by {
        assert(k == 0 || k == 1 || k == 2 || k == 3 || k == 4 || k == 5);
    }
}

/// Every tool of the bridge is a function whose name has the bridge's prefix; no two have the same
/// name; and what a call has to give is among what it can give.
pub proof fn law_bridge_tools_are_functions(index: int, other: int)
    requires
        0 <= index < tool_definitions().len(),
        0 <= other < tool_definitions().len(),
    ensures
        tool_definitions()[index] matches Json::Object(tool) && {
            &&& member(tool, "type"@) == Some(Json::Str("function"@))
            &&& tool_name(tool_definitions()[index]) matches Some(name) && "threadline_"@.is_prefix_of(
                name,
            )
            &&& tool_name(tool_definitions()[index]) == tool_name(tool_definitions()[other]) ==> index
                == other
            &&& member(tool, "description"@) matches Some(Json::Str(_))
            &&& member(tool, "parameters"@) matches Some(Json::Object(parameters)) && {
                &&& member(parameters, "type"@) == Some(Json::Str("object"@))
                &&& member(parameters, "additionalProperties"@) == Some(Json::Bool(false))
                &&& member(parameters, "properties"@) matches Some(Json::Object(properties)) && {
                    &&& member(parameters, "required"@) matches Some(Json::Array(required)) && {
                        &&& required.len() == 1
                        &&& required[0] matches Json::Str(needed) && properties.contains_key(needed)
                    }
                }
            }
        },
{
    lemma_definitions();
    reveal_strlit("name");
    reveal_strlit("type");
    reveal_strlit("description");
    reveal_strlit("parameters");
    reveal_strlit("properties");
    reveal_strlit("required");
    reveal_strlit("additionalProperties");
    reveal_strlit("threadline_");
    reveal_strlit("threadline_echo");
    reveal_strlit("threadline_start_job");
    reveal_strlit("threadline_poll_job");
    reveal_strlit("threadline_read_job_output");
    reveal_strlit("threadline_get_job_result");
    reveal_strlit("threadline_cancel_job");
    assert("name"@.len() == 4 && "name"@[0] == 'n' && "type"@[0] == 't' && "type"@.len() == 4);
    assert("description"@.len() == 11 && "parameters"@.len() == 10);
    assert("properties"@.len() == 10 && "properties"@[1] == 'r' && "parameters"@[1] == 'a');
    assert("required"@.len() == 8 && "additionalProperties"@.len() == 20);
    assert("threadline_echo"@.len() == 15 && "threadline_start_job"@.len() == 20);
    assert("threadline_poll_job"@.len() == 19 && "threadline_read_job_output"@.len() == 26);
    assert("threadline_get_job_result"@.len() == 25 && "threadline_cancel_job"@.len() == 21);
    assert(index == 0 || index == 1 || index == 2 || index == 3 || index == 4 || index == 5);
    assert(other == 0 || other == 1 || other == 2 || other == 3 || other == 4 || other == 5);
    assert("threadline_"@.is_prefix_of("threadline_echo"@));
    assert("threadline_"@.is_prefix_of("threadline_start_job"@));
    assert("threadline_"@.is_prefix_of("threadline_poll_job"@));
    assert("threadline_"@.is_prefix_of("threadline_read_job_output"@));
    assert("threadline_"@.is_prefix_of("threadline_get_job_result"@));
    assert("threadline_"@.is_prefix_of("threadline_cancel_job"@));
}

/// Exactly the names that begin with the bridge's prefix are the bridge's.
pub proof fn law_internal_names_have_the_prefix(name: Seq<char>)
    ensures
        is_internal_name(name) <==> "threadline_"@.is_prefix_of(name),
        is_internal_text(Some(name)) <==> "threadline_"@.is_prefix_of(name),
        !is_internal_text(None),
{
    let prefix = "threadline_"@;
    assert(INTERNAL_TOOL_PREFIX@ == prefix);
    if prefix.is_prefix_of(name) {
        assert(name.subrange(0, prefix.len() as int) =~= prefix);
    }
    if is_internal_name(name) {
        assert(prefix =~= name.subrange(0, prefix.len() as int));
    }
}

/// A document names one of the bridge's tools exactly when some object in it, at whatever depth, has
/// a member `name` or `tool_name` that is a text with the bridge's prefix.
pub proof fn law_tool_names_are_found_at_any_depth(document: Json)
    ensures
        names_internal_tool(document) <==> match document {
            Json::Object(members) => {
                ||| member(members, "name"@) matches Some(Json::Str(name))
                    && "threadline_"@.is_prefix_of(name)
                ||| member(members, "tool_name"@) matches Some(Json::Str(name))
                    && "threadline_"@.is_prefix_of(name)
                ||| exists|key: Seq<char>| #[trigger]
                    members.contains_key(key) && names_internal_tool(members[key])
            },
            Json::Array(items) => exists|i: int|
                0 <= i < items.len() && names_internal_tool(#[trigger] items[i]),
            _ => false,
        },
{
    if let Json::Object(members) = document {
        assert forall|name: Seq<char>| #[trigger]
            is_internal_name(name) == "threadline_"@.is_prefix_of(name) by {
            law_internal_names_have_the_prefix(name);
        }
        if member(members, "name"@) is Some {
            assert(members.contains_key("name"@));
        }
        if member(members, "tool_name"@) is Some {
            assert(members.contains_key("tool_name"@));
        }
        if let Some(Json::Str(name)) = member(members, "name"@) {
            assert(is_internal_name(name) == "threadline_"@.is_prefix_of(name));
        }
        if let Some(Json::Str(name)) = member(members, "tool_name"@) {
            assert(is_internal_name(name) == "threadline_"@.is_prefix_of(name));
        }
    }
}

/// A finished call of one of the bridge's tools is run under its own id, with its own name and
/// arguments. Arguments given as text are read as JSON, and none are no members. A call without an
/// id, or whose arguments are no JSON, cannot be run.
pub proof fn law_finished_calls_are_run_as_called(
    event: Map<Seq<char>, Json>,
    item: Map<Seq<char>, Json>,
    name: Seq<char>,
)
    requires
        member(event, "type"@) == Some(Json::Str("response.output_item.done"@)),
        member(event, "item"@) == Some(Json::Object(item)),
        member(item, "type"@) == Some(Json::Str("function_call"@)),
        member(item, "name"@) == Some(Json::Str(name)),
        "threadline_"@.is_prefix_of(name),
    ensures
        match member(item, "call_id"@) {
            Some(Json::Str(call_id)) => match member(item, "arguments"@) {
                None | Some(Json::Null) => tool_call_of(Json::Object(event)) matches Ok(Some(call))
                    && call.call_id == call_id && call.name == name && call.arguments
                    == Json::Object(Map::empty()),
                Some(Json::Str(text)) => match parsed_json(text) {
                    Some(arguments) => tool_call_of(Json::Object(event)) == Ok::<_, ()>(
                        Some(ToolCall { call_id, name, arguments }),
                    ),
                    None => tool_call_of(Json::Object(event)) is Err,
                },
                Some(arguments) => tool_call_of(Json::Object(event)) == Ok::<_, ()>(
                    Some(ToolCall { call_id, name, arguments }),
                ),
            },
            _ => tool_call_of(Json::Object(event)) is Err,
        },
{
    law_internal_names_have_the_prefix(name);
}

/// Nothing else is run: neither a call of another tool, nor what is no call, nor a call that is not
/// finished.
pub proof fn law_only_finished_calls_are_run(event: Json)
    requires
        tool_call_of(event) != Ok::<Option<ToolCall>, ()>(None),
    ensures
        event matches Json::Object(members) && {
            &&& member(members, "type"@) == Some(Json::Str("response.output_item.done"@))
            &&& member(members, "item"@) matches Some(Json::Object(item)) && {
                &&& member(item, "type"@) == Some(Json::Str("function_call"@))
                &&& member(item, "name"@) matches Some(Json::Str(name))
                    && "threadline_"@.is_prefix_of(name)
            }
        },
{
    if let Some(item) = json_field(event, "item"@) {
        if let Some(name) = field_text_view(item, "name"@) {
            law_internal_names_have_the_prefix(name);
        }
    }
}

/// The outputs of the tools are handed back one for one, in the order in which the tools ran, each
/// under the id of its call.
pub proof fn law_outputs_are_handed_back_in_order(outputs: Seq<ToolOutput>)
    ensures
        followup_input(outputs) matches Json::Array(items) && items.len() == outputs.len() && forall|
            i: int,
        |
            0 <= i < outputs.len() ==> {
                &&& #[trigger] items[i] matches Json::Object(item)
                &&& member(item, "type"@) == Some(Json::Str("function_call_output"@))
                &&& member(item, "call_id"@) == Some(Json::Str(outputs[i].call_id))
                &&& member(item, "output"@) == Some(Json::Str(outputs[i].output))
                &&& item.dom() =~= set!["type"@, "call_id"@, "output"@]
            },
{
    reveal_strlit("type");
    reveal_strlit("call_id");
    reveal_strlit("output");
    assert("type"@.len() == 4 && "call_id"@.len() == 7 && "output"@.len() == 6);
}

/// What a call has to say is described as it is read: a value and a job's id are texts, a command is
/// a list of texts that is not empty, and an offset is a number that is not negative.
pub proof fn law_arguments_are_described_as_they_are_read()
    ensures
        forall|k: int|
            0 <= k < tool_definitions().len() ==> describes_arguments(
                #[trigger] tool_definitions()[k],
            ),
{
    lemma_definitions();
    reveal_strlit("name");
    reveal_strlit("type");
    reveal_strlit("description");
    reveal_strlit("parameters");
    reveal_strlit("properties");
    reveal_strlit("required");
    reveal_strlit("additionalProperties");
    reveal_strlit("items");
    reveal_strlit("minItems");
    reveal_strlit("minimum");
    reveal_strlit("job_id");
    reveal_strlit("offset");
    reveal_strlit("value");
    reveal_strlit("command");
    assert("name"@.len() == 4 && "name"@[0] == 'n' && "type"@[0] == 't' && "type"@.len() == 4);
    assert("description"@.len() == 11 && "parameters"@.len() == 10);
    assert("properties"@.len() == 10 && "properties"@[1] == 'r' && "parameters"@[1] == 'a');
    assert("required"@.len() == 8 && "additionalProperties"@.len() == 20);
    assert("items"@.len() == 5 && "minItems"@.len() == 8 && "minimum"@.len() == 7);
    assert("job_id"@.len() == 6 && "job_id"@[0] == 'j' && "offset"@.len() == 6);
    assert("offset"@[0] == 'o' && "value"@.len() == 5 && "command"@.len() == 7);
    let tools = tool_definitions();
    assert(describes_arguments(tools[0]));
    assert(describes_arguments(tools[1]));
    assert(describes_arguments(tools[2]));
    assert(describes_arguments(tools[3]));
    assert(describes_arguments(tools[4]));
    assert(describes_arguments(tools[5]));
    assert forall|k: int| 0 <= k < tools.len() implies describes_arguments(#[trigger] tools[k]) by {
        assert(k == 0 || k == 1 || k == 2 || k == 3 || k == 4 || k == 5);
    }
}

/// Whether the properties of a tool's parameters are described by their types.
pub open spec fn describes_arguments(tool: Json) -> bool {
    tool matches Json::Object(members) && (member(members, "parameters"@) matches Some(
        Json::Object(parameters),
    ) && (member(parameters, "properties"@) matches Some(Json::Object(properties)) && {
        &&& forall|key: Seq<char>| #[trigger]
            properties.contains_key(key) ==> key == "value"@ || key == "job_id"@ || key == "command"@
                || key == "offset"@
        &&& properties.contains_key("value"@) ==> has_type(properties["value"@], "string"@)
        &&& properties.contains_key("job_id"@) ==> has_type(properties["job_id"@], "string"@)
        &&& properties.contains_key("command"@) ==> has_type(properties["command"@], "array"@)
            && has_type(properties["command"@]->Object_0["items"@], "string"@)
        &&& properties.contains_key("offset"@) ==> has_type(properties["offset"@], "integer"@)
    }))
}

/// Whether a schema is for a type.
pub open spec fn has_type(schema: Json, name: Seq<char>) -> bool {
    schema matches Json::Object(members) && member(members, "type"@) == Some(Json::Str(name))
}

/// What a tool needs to be told: an echo its value, a job that is to be started its command, and
/// every other tool the id of its job.
pub open spec fn needed_argument(name: Seq<char>) -> Seq<char> {
    if name == "threadline_echo"@ {
        "value"@
    } else if name == "threadline_start_job"@ {
        "command"@
    } else {
        "job_id"@
    }
}

/// Whether a tool says that it needs exactly what it needs to be told.
pub open spec fn requires_what_it_needs(tool: Json) -> bool {
    tool matches Json::Object(members) && (tool_name(tool) matches Some(name) && (member(
        members,
        "parameters"@,
    ) matches Some(Json::Object(parameters)) && member(parameters, "required"@) == Some(
        Json::Array(seq![Json::Str(needed_argument(name))]),
    )))
}

/// Every tool of the bridge says what it needs to be told.
pub proof fn law_tools_require_what_they_need()
    ensures
        forall|k: int|
            0 <= k < tool_definitions().len() ==> requires_what_it_needs(
                #[trigger] tool_definitions()[k],
            ),
{
    lemma_definitions();
    reveal_strlit("name");
    reveal_strlit("type");
    reveal_strlit("description");
    reveal_strlit("parameters");
    reveal_strlit("properties");
    reveal_strlit("required");
    reveal_strlit("additionalProperties");
    reveal_strlit("threadline_echo");
    reveal_strlit("threadline_start_job");
    reveal_strlit("threadline_poll_job");
    reveal_strlit("threadline_read_job_output");
    reveal_strlit("threadline_get_job_result");
    reveal_strlit("threadline_cancel_job");
    assert("name"@.len() == 4 && "name"@[0] == 'n' && "type"@[0] == 't' && "type"@.len() == 4);
    assert("description"@.len() == 11 && "parameters"@.len() == 10);
    assert("properties"@.len() == 10 && "properties"@[1] == 'r' && "parameters"@[1] == 'a');
    assert("required"@.len() == 8 && "additionalProperties"@.len() == 20);
    assert("threadline_echo"@.len() == 15 && "threadline_start_job"@.len() == 20);
    assert("threadline_poll_job"@.len() == 19 && "threadline_read_job_output"@.len() == 26);
    assert("threadline_get_job_result"@.len() == 25 && "threadline_cancel_job"@.len() == 21);
    let tools = tool_definitions();
    assert(requires_what_it_needs(tools[0]));
    assert(requires_what_it_needs(tools[1]));
    assert(requires_what_it_needs(tools[2]));
    assert(requires_what_it_needs(tools[3]));
    assert(requires_what_it_needs(tools[4]));
    assert(requires_what_it_needs(tools[5]));
    assert forall|k: int| 0 <= k < tools.len() implies requires_what_it_needs(
        #[trigger] tools[k],
    ) by {
        assert(k == 0 || k == 1 || k == 2 || k == 3 || k == 4 || k == 5);
    }
}

} // verus!
