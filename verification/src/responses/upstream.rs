//! The messages that the bridge sends to the upstream.

use crate::errors::ThreadlineError;
use crate::json::{
    json_str, json_view, make_value, member, no_members, object_entries, object_get, object_insert,
    object_remove, object_view, open_value, serialized_json, text_of, text_value, value_text, Json,
    Node, ValueRef,
};
use crate::text::same_text;
use serde_json::Value;
use vstd::prelude::*;

verus! {

/// `members` without the response fields that the upstream does not accept.
pub open spec fn without_unsupported_fields(members: Map<Seq<char>, Json>) -> Map<
    Seq<char>,
    Json,
> {
    members.remove("max_output_tokens"@).remove("max_tokens"@).remove(
        "max_completion_tokens"@,
    ).remove("truncation"@)
}

/// The reasoning settings without a summary that is switched off.
pub open spec fn normalized_reasoning(reasoning: Map<Seq<char>, Json>) -> Map<Seq<char>, Json> {
    if member(reasoning, "summary"@) == Some(json_str("off")) {
        reasoning.remove("summary"@)
    } else {
        reasoning
    }
}

/// `members` with normalized reasoning settings, which are left out when nothing remains of them.
pub open spec fn with_normalized_reasoning(members: Map<Seq<char>, Json>) -> Map<Seq<char>, Json> {
    match member(members, "reasoning"@) {
        Some(Json::Object(reasoning)) => {
            if normalized_reasoning(reasoning) =~= no_members() {
                members.remove("reasoning"@)
            } else {
                members.insert("reasoning"@, Json::Object(normalized_reasoning(reasoning)))
            }
        },
        _ => members,
    }
}

/// `members` with empty instructions where there are none.
pub open spec fn with_instructions(members: Map<Seq<char>, Json>) -> Map<Seq<char>, Json> {
    match member(members, "instructions"@) {
        Some(Json::Null) | None => members.insert("instructions"@, json_str("")),
        Some(_) => members,
    }
}

/// The `response.create` message for a request.
pub open spec fn response_create(members: Map<Seq<char>, Json>) -> Map<Seq<char>, Json> {
    with_normalized_reasoning(
        without_unsupported_fields(
            with_instructions(
                members.insert("type"@, json_str("response.create")).insert(
                    "store"@,
                    Json::Bool(false),
                ),
            ),
        ),
    )
}

/// The `response.create` message that continues `previous_response_id` with `input`.
pub open spec fn followup_create(
    members: Map<Seq<char>, Json>,
    previous_response_id: Seq<char>,
    input: Json,
) -> Map<Seq<char>, Json> {
    response_create(
        members.insert("previous_response_id"@, Json::Str(previous_response_id)).insert(
            "input"@,
            input,
        ),
    )
}

/// Whether an object has no members.
pub(crate) fn object_is_empty(map: &serde_json::Map<String, Value>) -> (empty: bool)
    ensures
        empty == (object_view(*map) =~= no_members()),
{
    let entries = object_entries(map);
    if entries.len() == 0 {
        assert(object_view(*map) =~= no_members());
        true
    } else {
        assert(member(object_view(*map), entries@[0].0@) is Some);
        false
    }
}

fn require_payload_object(payload: &Value) -> (members: Result<
    serde_json::Map<String, Value>,
    ThreadlineError,
>)
    ensures
        match members {
            Ok(map) => json_view(*payload) == Json::Object(object_view(map)),
            Err(error) => !(json_view(*payload) is Object) && error
                == ThreadlineError::InvalidResponsesRequest,
        },
{
    match open_value(payload) {
        ValueRef::Object(map) => Ok(map.clone()),
        _ => Err(ThreadlineError::InvalidResponsesRequest),
    }
}

/// Removes the response fields that the upstream does not accept.
pub fn remove_codex_unsupported_response_fields(payload: &mut serde_json::Map<String, Value>)
    ensures
        object_view(*final(payload)) == without_unsupported_fields(object_view(*old(payload))),
{
    let _ = object_remove(payload, "max_output_tokens");
    let _ = object_remove(payload, "max_tokens");
    let _ = object_remove(payload, "max_completion_tokens");
    let _ = object_remove(payload, "truncation");
}

/// Drops a reasoning summary that is switched off, and reasoning settings without contents.
pub fn normalize_codex_reasoning_fields(payload: &mut serde_json::Map<String, Value>)
    ensures
        object_view(*final(payload)) == with_normalized_reasoning(object_view(*old(payload))),
{
    let normalized: Option<serde_json::Map<String, Value>> = match object_get(
        payload,
        "reasoning",
    ) {
        Some(value) => match open_value(value) {
            ValueRef::Object(reasoning) => {
                let mut copy = reasoning.clone();
                let is_off = match text_of(object_get(reasoning, "summary")) {
                    Some(summary) => same_text(summary, "off"),
                    None => false,
                };
                if is_off {
                    let _ = object_remove(&mut copy, "summary");
                }
                Some(copy)
            },
            _ => None,
        },
        None => None,
    };
    if let Some(reasoning) = normalized {
        if object_is_empty(&reasoning) {
            let _ = object_remove(payload, "reasoning");
        } else {
            object_insert(payload, "reasoning", make_value(Node::Object(reasoning)));
        }
    }
}

/// The `response.create` message for the members of a request.
pub fn response_create_members(request: &serde_json::Map<String, Value>) -> (payload:
    serde_json::Map<String, Value>)
    ensures
        object_view(payload) == response_create(object_view(*request)),
{
    let mut payload = request.clone();
    object_insert(&mut payload, "type", text_value("response.create"));
    object_insert(&mut payload, "store", make_value(Node::Bool(false)));
    let lacks_instructions = match object_get(&payload, "instructions") {
        Some(value) => match open_value(value) {
            ValueRef::Null => true,
            _ => false,
        },
        None => true,
    };
    if lacks_instructions {
        object_insert(&mut payload, "instructions", text_value(""));
    }
    remove_codex_unsupported_response_fields(&mut payload);
    normalize_codex_reasoning_fields(&mut payload);
    payload
}

/// The `response.create` message for a request, which must be an object.
pub fn build_response_create_payload(request: Value) -> (payload: Result<Value, ThreadlineError>)
    ensures
        match payload {
            Ok(message) => json_view(request) matches Json::Object(members) && json_view(message)
                == Json::Object(response_create(members)),
            Err(error) => !(json_view(request) is Object) && error
                == ThreadlineError::InvalidResponsesRequest,
        },
{
    match require_payload_object(&request) {
        Ok(members) => Ok(make_value(Node::Object(response_create_members(&members)))),
        Err(error) => Err(error),
    }
}

/// The text of the `response.create` message for a request.
pub fn response_create_text(request: &serde_json::Map<String, Value>) -> (text: String)
    ensures
        text@ == serialized_json(Json::Object(response_create(object_view(*request)))),
{
    value_text(&make_value(Node::Object(response_create_members(request))))
}

/// The `response.create` message that hands tool outputs back, continuing an earlier response.
pub fn build_followup_tool_outputs_payload(
    request: Value,
    previous_response_id: &str,
    input: Value,
) -> (payload: Result<Value, ThreadlineError>)
    ensures
        match payload {
            Ok(message) => json_view(request) matches Json::Object(members) && json_view(message)
                == Json::Object(followup_create(members, previous_response_id@, json_view(input))),
            Err(error) => !(json_view(request) is Object) && error
                == ThreadlineError::InvalidResponsesRequest,
        },
{
    match require_payload_object(&request) {
        Ok(members) => Ok(
            make_value(
                Node::Object(followup_create_members(&members, previous_response_id, input)),
            ),
        ),
        Err(error) => Err(error),
    }
}

fn followup_create_members(
    request: &serde_json::Map<String, Value>,
    previous_response_id: &str,
    input: Value,
) -> (payload: serde_json::Map<String, Value>)
    ensures
        object_view(payload) == followup_create(
            object_view(*request),
            previous_response_id@,
            json_view(input),
        ),
{
    let mut members = request.clone();
    object_insert(&mut members, "previous_response_id", text_value(previous_response_id));
    object_insert(&mut members, "input", input);
    response_create_members(&members)
}

/// The text of the message that hands tool outputs back, continuing an earlier response.
pub fn followup_tool_outputs_text(
    request: &serde_json::Map<String, Value>,
    previous_response_id: &str,
    input: Value,
) -> (text: String)
    ensures
        text@ == serialized_json(
            Json::Object(
                followup_create(object_view(*request), previous_response_id@, json_view(input)),
            ),
        ),
{
    value_text(
        &make_value(Node::Object(followup_create_members(request, previous_response_id, input))),
    )
}

/// Every message that is sent upstream is a `response.create` that the upstream does not store,
/// has instructions, and names none of the fields that the upstream does not accept.
pub proof fn law_response_create_is_acceptable(members: Map<Seq<char>, Json>)
    ensures
        member(response_create(members), "type"@) == Some(json_str("response.create")),
        member(response_create(members), "store"@) == Some(Json::Bool(false)),
        member(response_create(members), "instructions"@) is Some,
        member(response_create(members), "instructions"@) != Some(Json::Null),
        member(response_create(members), "max_output_tokens"@) is None,
        member(response_create(members), "max_tokens"@) is None,
        member(response_create(members), "max_completion_tokens"@) is None,
        member(response_create(members), "truncation"@) is None,
        match member(response_create(members), "reasoning"@) {
            Some(Json::Object(reasoning)) => member(reasoning, "summary"@) != Some(json_str("off"))
                && !(reasoning =~= no_members()),
            _ => true,
        },
{
    reveal_strlit("type");
    reveal_strlit("store");
    reveal_strlit("instructions");
    reveal_strlit("max_output_tokens");
    reveal_strlit("max_tokens");
    reveal_strlit("max_completion_tokens");
    reveal_strlit("truncation");
    reveal_strlit("reasoning");
    assert("type"@.len() == 4 && "store"@.len() == 5 && "reasoning"@.len() == 9);
    assert("instructions"@.len() == 12 && "max_tokens"@.len() == 10 && "truncation"@.len() == 10);
    assert("max_output_tokens"@.len() == 17 && "max_completion_tokens"@.len() == 21);
}

/// A request goes upstream as the client made it: the message has every member of the request, with
/// the same value, and no others, but for the message's own members, the fields that the upstream
/// does not accept, missing instructions and the reasoning settings.
pub proof fn law_message_keeps_the_request(members: Map<Seq<char>, Json>, key: Seq<char>)
    requires
        key != "type"@,
        key != "store"@,
        key != "max_output_tokens"@,
        key != "max_tokens"@,
        key != "max_completion_tokens"@,
        key != "truncation"@,
    ensures
        key != "instructions"@ && key != "reasoning"@ ==> member(response_create(members), key)
            == member(members, key),
        key == "instructions"@ ==> member(response_create(members), key) == (match member(
            members,
            key,
        ) {
            None | Some(Json::Null) => Some(Json::Str(Seq::empty())),
            Some(value) => Some(value),
        }),
        key == "reasoning"@ && !(member(members, key) matches Some(Json::Object(_))) ==> member(
            response_create(members),
            key,
        ) == member(members, key),
{
    reveal_strlit("");
    assert(""@ =~= Seq::<char>::empty());
    reveal_strlit("reasoning");
    reveal_strlit("instructions");
    reveal_strlit("type");
    reveal_strlit("store");
    assert("reasoning"@.len() == 9 && "instructions"@.len() == 12);
    assert("type"@.len() == 4 && "store"@.len() == 5);
}

/// Reasoning settings go upstream as the client made them, but for a summary that is switched off.
/// They are left out only when they say nothing else.
pub proof fn law_message_keeps_the_reasoning_settings(
    members: Map<Seq<char>, Json>,
    reasoning: Map<Seq<char>, Json>,
    setting: Seq<char>,
)
    requires
        member(members, "reasoning"@) == Some(Json::Object(reasoning)),
        member(reasoning, setting) is Some,
        !(setting == "summary"@ && reasoning[setting] == Json::Str("off"@)),
    ensures
        member(response_create(members), "reasoning"@) matches Some(Json::Object(sent)) && member(
            sent,
            setting,
        ) == member(reasoning, setting) && sent.dom().subset_of(reasoning.dom()),
{
    reveal_strlit("type");
    reveal_strlit("store");
    reveal_strlit("instructions");
    reveal_strlit("max_output_tokens");
    reveal_strlit("max_tokens");
    reveal_strlit("max_completion_tokens");
    reveal_strlit("truncation");
    reveal_strlit("reasoning");
    assert("type"@.len() == 4 && "store"@.len() == 5 && "reasoning"@.len() == 9);
    assert("instructions"@.len() == 12 && "max_tokens"@.len() == 10 && "truncation"@.len() == 10);
    assert("max_output_tokens"@.len() == 17 && "max_completion_tokens"@.len() == 21);
    assert(normalized_reasoning(reasoning).contains_key(setting));
}

/// The message that hands tool outputs back is the message of the request that the response began
/// with, for every member but two: it continues the given response, and its input is the given one.
pub proof fn law_followup_continues_the_request(
    members: Map<Seq<char>, Json>,
    previous_response_id: Seq<char>,
    input: Json,
    key: Seq<char>,
)
    ensures
        key == "previous_response_id"@ ==> member(
            followup_create(members, previous_response_id, input),
            key,
        ) == Some(Json::Str(previous_response_id)),
        key == "input"@ ==> member(followup_create(members, previous_response_id, input), key)
            == Some(input),
        key != "previous_response_id"@ && key != "input"@ ==> member(
            followup_create(members, previous_response_id, input),
            key,
        ) == member(response_create(members), key),
        key != "previous_response_id"@ && key != "input"@ && key != "type"@ && key != "store"@ && key
            != "instructions"@ && key != "reasoning"@ && key != "max_output_tokens"@ && key
            != "max_tokens"@ && key != "max_completion_tokens"@ && key != "truncation"@ ==> member(
            followup_create(members, previous_response_id, input),
            key,
        ) == member(members, key),
{
    reveal_strlit("previous_response_id");
    reveal_strlit("input");
    reveal_strlit("type");
    reveal_strlit("store");
    reveal_strlit("instructions");
    reveal_strlit("max_output_tokens");
    reveal_strlit("max_tokens");
    reveal_strlit("max_completion_tokens");
    reveal_strlit("truncation");
    reveal_strlit("reasoning");
    assert("previous_response_id"@.len() == 20);
    assert("input"@.len() == 5 && "input"@[0] == 'i' && "store"@[0] == 's');
    assert("type"@.len() == 4 && "store"@.len() == 5 && "reasoning"@.len() == 9);
    assert("instructions"@.len() == 12 && "max_tokens"@.len() == 10 && "truncation"@.len() == 10);
    assert("max_output_tokens"@.len() == 17 && "max_completion_tokens"@.len() == 21);
}

} // verus!
