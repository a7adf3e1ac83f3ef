//! How a request is routed: to a retained session, or to a connection of its own.

use crate::errors::{public_error_of, ThreadlineError};
use crate::json::{
    array_view, field_text, field_text_view, json_str, json_view, make_value, member, new_object,
    no_members, object_get, object_insert, object_remove, object_view, open_value, text_value, Json,
    Node, ValueRef,
};
use crate::models::{
    alias_of, requested_alias, resolve_request_model_for_profile, Alias, RouteProfile,
};
use crate::registry::RegistryAcquireError;
use crate::responses::downstream::{
    asks_all_turns, describes_summary, is_conflict_fallback,
    looks_like_auxiliary_summary_conflict_fallback, wants_reasoning_all_turns,
    DownstreamRequestClassification, DownstreamRequestRoutingDiagnostics,
    DownstreamResponsesRequest,
};
use crate::responses::upstream::{law_message_keeps_the_request, response_create};
use crate::responses::virtual_tools::{
    law_summarizer_support_only_adds_an_instruction,
    maybe_inject_virtual_tool_summarizer_instruction, with_summarizer_support,
};
use crate::text::{copy_text, optional_text};
use crate::tools::{
    inject_internal_tools, is_internal_text, is_internal_tool_name, law_client_tools_are_kept,
    law_internal_names_have_the_prefix, tool_name, with_internal_tools,
};
use crate::ws_pump::{Terminal, UpstreamTerminalState, UpstreamWebSocketError};
use serde_json::Value;
use vstd::prelude::*;

verus! {

/// The header in which the upstream sends the state of a turn.
pub const TURN_STATE_HEADER: &'static str = "x-codex-turn-state";

/// Why a request has a connection of its own.
#[derive(Debug, Clone, Copy, PartialEq, Eq, Structural)]
pub enum TransientRouteKind {
    AuxiliarySummary,
    Utility,
}

/// The name of a kind.
pub open spec fn kind_name(kind: TransientRouteKind) -> Seq<char> {
    match kind {
        TransientRouteKind::AuxiliarySummary => "auxiliary_summary"@,
        TransientRouteKind::Utility => "utility"@,
    }
}

impl TransientRouteKind {
    /// The name of the kind.
    pub fn label(self) -> (name: &'static str)
        ensures
            name@ == kind_name(self),
    {
        match self {
            TransientRouteKind::AuxiliarySummary => "auxiliary_summary",
            TransientRouteKind::Utility => "utility",
        }
    }
}

/// The tools that are not the bridge's own.
pub open spec fn foreign_tools(tools: Seq<Json>) -> Seq<Json>
    decreases tools.len(),
{
    if tools.len() == 0 {
        Seq::empty()
    } else {
        let earlier = foreign_tools(tools.drop_last());
        if is_internal_text(field_text_view(tools.last(), "name"@)) {
            earlier
        } else {
            earlier.push(tools.last())
        }
    }
}

/// A request without the bridge's own tools.
pub open spec fn without_internal_tools(members: Map<Seq<char>, Json>) -> Map<Seq<char>, Json> {
    match member(members, "tools"@) {
        Some(Json::Array(tools)) => members.insert("tools"@, Json::Array(foreign_tools(tools))),
        _ => members,
    }
}

/// The request of a turn with a connection of its own.
pub open spec fn transient_request(members: Map<Seq<char>, Json>) -> Map<Seq<char>, Json> {
    without_internal_tools(members).remove("context_management"@).remove("previous_response_id"@)
}

/// The request of a turn in a retained session.
pub open spec fn retained_request(
    members: Map<Seq<char>, Json>,
    previous_response_id: Option<Seq<char>>,
) -> Map<Seq<char>, Json> {
    let request = with_internal_tools(members).remove("context_management"@);
    match previous_response_id {
        Some(marker) => request.insert("previous_response_id"@, Json::Str(marker)),
        None => request,
    }
}

/// A request whose reasoning is kept over the turns.
pub open spec fn with_all_turns(members: Map<Seq<char>, Json>) -> Map<Seq<char>, Json> {
    match member(members, "reasoning"@) {
        Some(Json::Object(reasoning)) => members.insert(
            "reasoning"@,
            Json::Object(reasoning.insert("context"@, json_str("all_turns"))),
        ),
        Some(Json::Null) | None => members.insert(
            "reasoning"@,
            Json::Object(no_members().insert("context"@, json_str("all_turns"))),
        ),
        _ => members,
    }
}

/// A request for a model, in the upstream's terms.
pub open spec fn addressed_request(
    members: Map<Seq<char>, Json>,
    alias: Alias,
    persistent_reasoning: bool,
) -> Map<Seq<char>, Json> {
    let addressed = members.insert("model"@, Json::Str(alias.upstream_model_id));
    if persistent_reasoning && alias.persistent_reasoning_eligible {
        with_all_turns(addressed)
    } else {
        addressed
    }
}

/// Why a request is refused before it is routed.
pub open spec fn route_refusal(members: Map<Seq<char>, Json>, profile: RouteProfile) -> Option<
    ThreadlineError,
> {
    match requested_alias(members, profile) {
        None => Some(ThreadlineError::InvalidModel),
        Some(alias) => if asks_all_turns(members) && !alias.supports_reasoning_all_turns {
            Some(ThreadlineError::UnsupportedReasoningContext)
        } else {
            None
        },
    }
}

/// How a request is routed.
#[derive(Debug, Clone)]
pub enum RoutePlan {
    /// To a connection of its own, with this request.
    Transient { kind: TransientRouteKind, request: serde_json::Map<String, Value> },
    /// To a retained session: a new one, or the one that a response marker leads to.
    Retained { previous_response_id: Option<String>, request: serde_json::Map<String, Value> },
}

/// The contents of a [`RoutePlan`].
#[verifier::ext_equal]
pub enum Route {
    Transient { kind: TransientRouteKind, request: Map<Seq<char>, Json> },
    Retained { previous_response_id: Option<Seq<char>>, request: Map<Seq<char>, Json> },
}

impl View for RoutePlan {
    type V = Route;

    open spec fn view(&self) -> Route {
        match self {
            RoutePlan::Transient { kind, request } => Route::Transient {
                kind: *kind,
                request: object_view(*request),
            },
            RoutePlan::Retained { previous_response_id, request } => Route::Retained {
                previous_response_id: optional_text(*previous_response_id),
                request: object_view(*request),
            },
        }
    }
}

/// The route of a request that is not refused. Utility turns and summaries have connections of
/// their own; every other primary turn has a retained session.
pub open spec fn route_of(
    members: Map<Seq<char>, Json>,
    alias: Alias,
    classification: DownstreamRequestClassification,
    previous_response_id: Option<Seq<char>>,
    profile: RouteProfile,
    persistent_reasoning: bool,
) -> Route {
    let addressed = addressed_request(members, alias, persistent_reasoning);
    if profile == RouteProfile::Utility {
        Route::Transient {
            kind: TransientRouteKind::Utility,
            request: transient_request(with_summarizer_support(addressed)),
        }
    } else if classification == DownstreamRequestClassification::AuxiliarySummary {
        Route::Transient {
            kind: TransientRouteKind::AuxiliarySummary,
            request: transient_request(addressed),
        }
    } else {
        Route::Retained { previous_response_id, request: addressed }
    }
}

fn strip_threadline_tools(payload: &mut serde_json::Map<String, Value>)
    ensures
        object_view(*final(payload)) == without_internal_tools(object_view(*old(payload))),
{
    let mut kept: Vec<Value> = Vec::new();
    match object_get(payload, "tools") {
        Some(value) => match open_value(value) {
            ValueRef::Array(tools) => {
                let ghost all = array_view(tools@);
                assert(all.take(0) =~= Seq::empty());
                assert(array_view(kept@) =~= foreign_tools(all.take(0)));
                let mut i: usize = 0;
                while i < tools.len()
                    invariant
                        i <= tools@.len(),
                        all == array_view(tools@),
                        array_view(kept@) == foreign_tools(all.take(i as int)),
                    decreases tools@.len() - i,
                {
                    let tool = &tools[i];
                    proof {
                        assert(all.take(i + 1).drop_last() =~= all.take(i as int));
                        assert(all.take(i + 1).last() == json_view(*tool));
                    }
                    let internal = match field_text(tool, "name") {
                        Some(name) => is_internal_tool_name(name),
                        None => false,
                    };
                    if !internal {
                        let ghost listed = array_view(kept@);
                        let copy = tool.clone();
                        kept.push(copy);
                        assert(array_view(kept@) =~= listed.push(json_view(copy)));
                    }
                    i += 1;
                }
                assert(all.take(i as int) =~= all);
            },
            _ => return ,
        },
        None => return ,
    }
    object_insert(payload, "tools", make_value(Node::Array(kept)));
}

/// Takes the client's context management out of a request: the upstream does not do it. Says whether
/// there was any.
pub fn strip_context_management_for_upstream(payload: &mut serde_json::Map<String, Value>) -> (
    stripped: bool)
    ensures
        object_view(*final(payload)) == object_view(*old(payload)).remove("context_management"@),
        stripped == object_view(*old(payload)).contains_key("context_management"@),
{
    object_remove(payload, "context_management").is_some()
}

fn keep_reasoning(payload: &mut serde_json::Map<String, Value>)
    ensures
        object_view(*final(payload)) == with_all_turns(object_view(*old(payload))),
{
    let mut reasoning = match object_get(payload, "reasoning") {
        Some(value) => match open_value(value) {
            ValueRef::Object(existing) => existing.clone(),
            ValueRef::Null => new_object(),
            _ => return ,
        },
        None => new_object(),
    };
    object_insert(&mut reasoning, "context", text_value("all_turns"));
    object_insert(payload, "reasoning", make_value(Node::Object(reasoning)));
}

fn prepare_transient(payload: &mut serde_json::Map<String, Value>)
    ensures
        object_view(*final(payload)) == transient_request(object_view(*old(payload))),
{
    strip_threadline_tools(payload);
    let _ = strip_context_management_for_upstream(payload);
    let _ = object_remove(payload, "previous_response_id");
}

/// Decides how a request is routed, or why it is refused.
pub fn plan_route(
    request: DownstreamResponsesRequest,
    profile: RouteProfile,
    persistent_reasoning: bool,
) -> (plan: Result<RoutePlan, ThreadlineError>)
    ensures
        match route_refusal(object_view(request.payload), profile) {
            Some(error) => plan == Err::<RoutePlan, _>(error),
            None => plan matches Ok(route) && route@ == route_of(
                object_view(request.payload),
                requested_alias(object_view(request.payload), profile)->0,
                request.classification,
                optional_text(request.previous_response_id),
                profile,
                persistent_reasoning,
            ),
        },
{
    let alias = match resolve_request_model_for_profile(&request.payload, profile) {
        Ok(alias) => alias,
        Err(error) => return Err(error),
    };
    if wants_reasoning_all_turns(&request.payload) && !alias.supports_reasoning_all_turns {
        return Err(ThreadlineError::UnsupportedReasoningContext);
    }
    let mut payload = request.payload;
    object_insert(&mut payload, "model", text_value(alias.upstream_model_id));
    if persistent_reasoning && alias.persistent_reasoning_eligible {
        keep_reasoning(&mut payload);
    }
    if profile == RouteProfile::Utility {
        maybe_inject_virtual_tool_summarizer_instruction(&mut payload);
        prepare_transient(&mut payload);
        return Ok(RoutePlan::Transient { kind: TransientRouteKind::Utility, request: payload });
    }
    match request.classification {
        DownstreamRequestClassification::AuxiliarySummary => {
            prepare_transient(&mut payload);
            Ok(
                RoutePlan::Transient {
                    kind: TransientRouteKind::AuxiliarySummary,
                    request: payload,
                },
            )
        },
        DownstreamRequestClassification::Normal => Ok(
            RoutePlan::Retained {
                previous_response_id: request.previous_response_id,
                request: payload,
            },
        ),
    }
}

/// The request that goes upstream in a retained session.
pub fn prepare_retained_request(
    mut request: serde_json::Map<String, Value>,
    previous_response_id: &Option<String>,
) -> (prepared: serde_json::Map<String, Value>)
    ensures
        object_view(prepared) == retained_request(
            object_view(request),
            optional_text(*previous_response_id),
        ),
{
    inject_internal_tools(&mut request);
    let _ = strip_context_management_for_upstream(&mut request);
    if let Some(marker) = previous_response_id {
        object_insert(&mut request, "previous_response_id", text_value(marker.as_str()));
    }
    request
}

/// The name of a classification.
pub open spec fn class_name(classification: DownstreamRequestClassification) -> Seq<char> {
    match classification {
        DownstreamRequestClassification::Normal => "normal"@,
        DownstreamRequestClassification::AuxiliarySummary => "auxiliary_summary"@,
    }
}

/// The name of a classification.
pub fn request_class_label(classification: DownstreamRequestClassification) -> (name: &'static str)
    ensures
        name@ == class_name(classification),
{
    match classification {
        DownstreamRequestClassification::Normal => "normal",
        DownstreamRequestClassification::AuxiliarySummary => "auxiliary_summary",
    }
}

/// Why a request for a session that is in use may have a connection of its own.
pub open spec fn reroute_reason(
    diagnostics: DownstreamRequestRoutingDiagnostics,
    members: Map<Seq<char>, Json>,
) -> Option<Seq<char>> {
    if diagnostics.interaction_type_compaction_hit {
        Some("interaction_type_compaction"@)
    } else if describes_summary(diagnostics.summary_hits) {
        Some("summary_fingerprint"@)
    } else if is_conflict_fallback(members) {
        Some("fallback_summary_input"@)
    } else {
        None
    }
}

/// Why a request for a session that is in use may have a connection of its own.
pub fn retained_session_conflict_reroute_reason(
    diagnostics: &DownstreamRequestRoutingDiagnostics,
    payload: &serde_json::Map<String, Value>,
) -> (reason: Option<&'static str>)
    ensures
        crate::text::optional_str(reason) == reroute_reason(*diagnostics, object_view(*payload)),
{
    if diagnostics.interaction_type_compaction_hit {
        return Some("interaction_type_compaction");
    }
    if diagnostics.summary_hits.matches_auxiliary_summary() {
        return Some("summary_fingerprint");
    }
    if looks_like_auxiliary_summary_conflict_fallback(payload) {
        return Some("fallback_summary_input");
    }
    None
}

/// The error for a session that could not be acquired.
pub open spec fn acquire_error(error: RegistryAcquireError) -> ThreadlineError {
    match error {
        RegistryAcquireError::PreviousResponseNotFound => ThreadlineError::PreviousResponseNotFound,
        RegistryAcquireError::RetainedSessionConflict => ThreadlineError::RetainedSessionConflict,
        RegistryAcquireError::RetainedSessionCapacityExceeded =>
            ThreadlineError::RetainedSessionCapacityExceeded,
        RegistryAcquireError::UpstreamInboundBufferOverflow =>
            ThreadlineError::UpstreamInboundBufferOverflow,
    }
}

/// The error for a session that could not be acquired.
pub fn map_registry_error(error: RegistryAcquireError) -> (mapped: ThreadlineError)
    ensures
        mapped == acquire_error(error),
{
    match error {
        RegistryAcquireError::PreviousResponseNotFound => ThreadlineError::PreviousResponseNotFound,
        RegistryAcquireError::RetainedSessionConflict => ThreadlineError::RetainedSessionConflict,
        RegistryAcquireError::RetainedSessionCapacityExceeded =>
            ThreadlineError::RetainedSessionCapacityExceeded,
        RegistryAcquireError::UpstreamInboundBufferOverflow =>
            ThreadlineError::UpstreamInboundBufferOverflow,
    }
}

/// What becomes of a request whose session could not be acquired. Only a summary may go around a
/// session that is in use.
pub fn route_after_refusal(
    error: RegistryAcquireError,
    diagnostics: &DownstreamRequestRoutingDiagnostics,
    mut request: serde_json::Map<String, Value>,
) -> (plan: Result<RoutePlan, ThreadlineError>)
    ensures
        if error == RegistryAcquireError::RetainedSessionConflict && reroute_reason(
            *diagnostics,
            object_view(request),
        ) is Some {
            plan matches Ok(route) && route@ == (Route::Transient {
                kind: TransientRouteKind::AuxiliarySummary,
                request: transient_request(object_view(request)),
            })
        } else {
            plan == Err::<RoutePlan, _>(acquire_error(error))
        },
{
    if let RegistryAcquireError::RetainedSessionConflict = error {
        if retained_session_conflict_reroute_reason(diagnostics, &request).is_some() {
            prepare_transient(&mut request);
            return Ok(
                RoutePlan::Transient { kind: TransientRouteKind::AuxiliarySummary, request },
            );
        }
    }
    Err(map_registry_error(error))
}

/// The error for a message that could not be sent.
pub fn map_send_error(error: UpstreamWebSocketError) -> (mapped: ThreadlineError)
    ensures
        mapped == match error {
            UpstreamWebSocketError::InboundBufferOverflow =>
                ThreadlineError::UpstreamInboundBufferOverflow,
            _ => ThreadlineError::UpstreamWebSocketClosed,
        },
{
    match error {
        UpstreamWebSocketError::InboundBufferOverflow =>
            ThreadlineError::UpstreamInboundBufferOverflow,
        _ => ThreadlineError::UpstreamWebSocketClosed,
    }
}

/// The error for a continuation that could not be sent: the client is to send the whole
/// conversation again when the connection is gone.
pub open spec fn stale_error(error: ThreadlineError) -> ThreadlineError {
    if error == ThreadlineError::UpstreamWebSocketClosed {
        ThreadlineError::PreviousResponseNotFound
    } else {
        error
    }
}

/// The error for a continuation that could not be sent.
pub fn rewrite_stale_continuation_first_send_error(error: ThreadlineError) -> (rewritten:
    ThreadlineError)
    ensures
        rewritten == stale_error(error),
{
    match error {
        ThreadlineError::UpstreamWebSocketClosed => ThreadlineError::PreviousResponseNotFound,
        other => other,
    }
}

/// Whether a continuation may be sent on the connection of its session, and the error otherwise.
pub fn continuation_check(upstream_attached: bool, upstream_state: &UpstreamTerminalState) -> (
    result: Result<(), ThreadlineError>)
    ensures
        result == (if upstream_attached && upstream_state@ == Terminal::Open {
            Ok::<(), ThreadlineError>(())
        } else if upstream_attached && upstream_state@ is InboundBufferOverflow {
            Err(ThreadlineError::UpstreamInboundBufferOverflow)
        } else {
            Err(ThreadlineError::PreviousResponseNotFound)
        }),
{
    if !upstream_attached {
        return Err(ThreadlineError::PreviousResponseNotFound);
    }
    match upstream_state {
        UpstreamTerminalState::Open => Ok(()),
        UpstreamTerminalState::InboundBufferOverflow(_) => Err(
            ThreadlineError::UpstreamInboundBufferOverflow,
        ),
        _ => Err(ThreadlineError::PreviousResponseNotFound),
    }
}

/// What the first message of a turn comes to: an error, or the turn goes on. For a continuation the
/// connection must still be open after the message was handed over.
pub fn first_send_result(
    is_continuation: bool,
    sent: Result<(), UpstreamWebSocketError>,
    upstream_state: &UpstreamTerminalState,
) -> (result: Result<(), ThreadlineError>)
    ensures
        match sent {
            Err(UpstreamWebSocketError::InboundBufferOverflow) => result == Err::<(), _>(
                ThreadlineError::UpstreamInboundBufferOverflow,
            ),
            Err(_) => result == Err::<(), _>(
                if is_continuation {
                    ThreadlineError::PreviousResponseNotFound
                } else {
                    ThreadlineError::UpstreamWebSocketClosed
                },
            ),
            Ok(_) => if !is_continuation || upstream_state@ == Terminal::Open {
                result == Ok::<(), ThreadlineError>(())
            } else if upstream_state@ is InboundBufferOverflow {
                result == Err::<(), _>(ThreadlineError::UpstreamInboundBufferOverflow)
            } else {
                result == Err::<(), _>(ThreadlineError::PreviousResponseNotFound)
            },
        },
{
    match sent {
        Err(error) => {
            let mapped = map_send_error(error);
            if is_continuation {
                Err(rewrite_stale_continuation_first_send_error(mapped))
            } else {
                Err(mapped)
            }
        },
        Ok(_) => if is_continuation {
            continuation_check(true, upstream_state)
        } else {
            Ok(())
        },
    }
}

/// The turn state of a session after it was connected: the new one, or else the one it had.
pub fn turn_state_after_connect(connected: Option<String>, earlier: &Option<String>) -> (turn_state:
    Option<String>)
    ensures
        optional_text(turn_state) == match optional_text(connected) {
            Some(state) => Some(state),
            None => optional_text(*earlier),
        },
{
    match connected {
        Some(state) => Some(state),
        None => copy_text(earlier),
    }
}

proof fn lemma_foreign_tools(tools: Seq<Json>, index: int)
    requires
        0 <= index < foreign_tools(tools).len(),
    ensures
        !is_internal_text(field_text_view(foreign_tools(tools)[index], "name"@)),
        tools.contains(foreign_tools(tools)[index]),
    decreases tools.len(),
{
    let earlier = foreign_tools(tools.drop_last());
    let kept = foreign_tools(tools);
    if index < earlier.len() {
        lemma_foreign_tools(tools.drop_last(), index);
        assert(kept[index] == earlier[index]);
        let i = choose|i: int| 0 <= i < tools.len() - 1 && tools.drop_last()[i] == earlier[index];
        assert(tools[i] == kept[index]);
    } else {
        assert(tools[tools.len() - 1] == kept[index]);
    }
}

/// A turn with a connection of its own is stateless: its request names none of the bridge's tools,
/// continues no response and asks for no context management.
pub proof fn law_transient_requests_are_stateless(members: Map<Seq<char>, Json>)
    ensures
        !transient_request(members).contains_key("previous_response_id"@),
        !transient_request(members).contains_key("context_management"@),
        member(transient_request(members), "tools"@) matches Some(Json::Array(tools)) ==> forall|
            i: int,
        |
            0 <= i < tools.len() ==> !is_internal_text(
                field_text_view(#[trigger] tools[i], "name"@),
            ),
{
    reveal_strlit("tools");
    reveal_strlit("previous_response_id");
    reveal_strlit("context_management");
    assert("tools"@.len() == 5);
    assert("previous_response_id"@.len() == 20);
    assert("context_management"@.len() == 18);
    if let Some(Json::Array(tools)) = member(members, "tools"@) {
        let kept = foreign_tools(tools);
        assert forall|i: int| 0 <= i < kept.len() implies !is_internal_text(
            field_text_view(#[trigger] kept[i], "name"@),
        ) by {
            lemma_foreign_tools(tools, i);
        }
    }
}

/// Reasoning is kept over the turns where that is switched on for a model that may have it, and
/// otherwise exactly where the client asks for it.
pub proof fn law_persistent_reasoning_is_opt_in(
    members: Map<Seq<char>, Json>,
    alias: Alias,
    persistent_reasoning: bool,
)
    requires
        member(members, "reasoning"@) matches Some(value) ==> value is Object || value is Null,
    ensures
        asks_all_turns(addressed_request(members, alias, persistent_reasoning)) == (asks_all_turns(
            members,
        ) || (persistent_reasoning && alias.persistent_reasoning_eligible)),
{
    reveal_strlit("model");
    reveal_strlit("reasoning");
    assert("model"@.len() == 5);
    assert("reasoning"@.len() == 9);
}

/// Utility turns never touch a retained session, whatever they continue.
pub proof fn law_utility_turns_are_transient(
    members: Map<Seq<char>, Json>,
    alias: Alias,
    classification: DownstreamRequestClassification,
    previous_response_id: Option<Seq<char>>,
    persistent_reasoning: bool,
)
    ensures
        route_of(
            members,
            alias,
            classification,
            previous_response_id,
            RouteProfile::Utility,
            persistent_reasoning,
        ) is Transient,
{
}

/// What goes upstream names the upstream's model, whatever the client called it.
pub proof fn law_upstream_model_is_named(
    members: Map<Seq<char>, Json>,
    alias: Alias,
    persistent_reasoning: bool,
)
    ensures
        member(addressed_request(members, alias, persistent_reasoning), "model"@) == Some(
            Json::Str(alias.upstream_model_id),
        ),
{
    reveal_strlit("model");
    reveal_strlit("reasoning");
    assert("model"@.len() == 5);
    assert("reasoning"@.len() == 9);
}

proof fn lemma_request_keys()
    ensures
        "model"@ != "reasoning"@,
        "model"@ != "tools"@,
        "model"@ != "input"@,
        "model"@ != "instructions"@,
        "model"@ != "context_management"@,
        "model"@ != "previous_response_id"@,
        "tools"@ != "reasoning"@,
        "tools"@ != "input"@,
        "tools"@ != "instructions"@,
        "tools"@ != "context_management"@,
        "tools"@ != "previous_response_id"@,
        "reasoning"@ != "instructions"@,
        "reasoning"@ != "context_management"@,
        "reasoning"@ != "previous_response_id"@,
        "instructions"@ != "context_management"@,
        "instructions"@ != "previous_response_id"@,
        "context_management"@ != "previous_response_id"@,
{
    reveal_strlit("model");
    reveal_strlit("tools");
    reveal_strlit("input");
    reveal_strlit("reasoning");
    reveal_strlit("instructions");
    reveal_strlit("context_management");
    reveal_strlit("previous_response_id");
    assert("model"@.len() == 5 && "model"@[0] == 'm');
    assert("tools"@.len() == 5 && "tools"@[0] == 't');
    assert("input"@.len() == 5 && "input"@[0] == 'i');
    assert("reasoning"@.len() == 9 && "instructions"@.len() == 12);
    assert("context_management"@.len() == 18 && "previous_response_id"@.len() == 20);
}

/// The request of a turn in a retained session is the client's: it has every member that the client
/// sent, with the same value, and no others, but for three. The client's tools stay where they
/// were, with tools behind them; context management is taken out; and a response that is continued
/// is named.
pub proof fn law_retained_request_keeps_the_request(
    members: Map<Seq<char>, Json>,
    previous_response_id: Option<Seq<char>>,
    key: Seq<char>,
)
    ensures
        key != "tools"@ && key != "context_management"@ && key != "previous_response_id"@ ==> member(
            retained_request(members, previous_response_id),
            key,
        ) == member(members, key),
        member(retained_request(members, previous_response_id), "context_management"@) is None,
        member(retained_request(members, previous_response_id), "previous_response_id"@) == (
        match previous_response_id {
            Some(marker) => Some(Json::Str(marker)),
            None => member(members, "previous_response_id"@),
        }),
        member(retained_request(members, previous_response_id), "tools"@) == member(
            with_internal_tools(members),
            "tools"@,
        ),
        member(members, "tools"@) matches Some(Json::Array(sent)) ==> (member(
            retained_request(members, previous_response_id),
            "tools"@,
        ) matches Some(Json::Array(tools)) && sent.is_prefix_of(tools)),
{
    lemma_request_keys();
    law_client_tools_are_kept(members, "tools"@);
}

proof fn lemma_foreign_tools_are_filtered(tools: Seq<Json>)
    ensures
        foreign_tools(tools) == tools.filter(|tool: Json| !is_bridge_tool(tool)),
    decreases tools.len(),
{
    reveal(Seq::filter);
    if tools.len() > 0 {
        lemma_foreign_tools_are_filtered(tools.drop_last());
        if let Some(name) = field_text_view(tools.last(), "name"@) {
            law_internal_names_have_the_prefix(name);
        }
        assert(is_bridge_tool(tools.last()) == is_internal_text(
            field_text_view(tools.last(), "name"@),
        ));
    }
}

/// Whether a tool has a name with the bridge's prefix.
pub open spec fn is_bridge_tool(tool: Json) -> bool {
    tool_name(tool) matches Some(name) && "threadline_"@.is_prefix_of(name)
}

/// The request of a turn with a connection of its own is the client's, but for three members:
/// exactly the tools with the bridge's prefix are taken out of its tools, the others stay in their
/// order, and it neither continues a response nor asks for context management.
pub proof fn law_transient_request_keeps_the_request(members: Map<Seq<char>, Json>, key: Seq<char>)
    ensures
        key != "tools"@ && key != "context_management"@ && key != "previous_response_id"@ ==> member(
            transient_request(members),
            key,
        ) == member(members, key),
        member(transient_request(members), "context_management"@) is None,
        member(transient_request(members), "previous_response_id"@) is None,
        member(transient_request(members), "tools"@) == (match member(members, "tools"@) {
            Some(Json::Array(tools)) => Some(
                Json::Array(tools.filter(|tool: Json| !is_bridge_tool(tool))),
            ),
            other => other,
        }),
{
    lemma_request_keys();
    if let Some(Json::Array(tools)) = member(members, "tools"@) {
        lemma_foreign_tools_are_filtered(tools);
    }
}

/// Addressing a request to the upstream's model changes nothing but the model's name and, where
/// reasoning is kept over the turns, that one reasoning setting.
pub proof fn law_addressing_keeps_the_request(
    members: Map<Seq<char>, Json>,
    alias: Alias,
    persistent_reasoning: bool,
    key: Seq<char>,
    setting: Seq<char>,
)
    ensures
        ({
            let addressed = addressed_request(members, alias, persistent_reasoning);
            let kept = persistent_reasoning && alias.persistent_reasoning_eligible;
            &&& member(addressed, "model"@) == Some(Json::Str(alias.upstream_model_id))
            &&& key != "model"@ && key != "reasoning"@ ==> member(addressed, key) == member(
                members,
                key,
            )
            &&& !kept ==> member(addressed, "reasoning"@) == member(members, "reasoning"@)
            &&& kept ==> match member(members, "reasoning"@) {
                None | Some(Json::Null) => member(addressed, "reasoning"@) matches Some(
                    Json::Object(settings),
                ) && settings =~= map!["context"@ => Json::Str("all_turns"@)],
                Some(Json::Object(given)) => member(addressed, "reasoning"@) matches Some(
                    Json::Object(settings),
                ) && member(settings, setting) == (if setting == "context"@ {
                    Some(Json::Str("all_turns"@))
                } else {
                    member(given, setting)
                }),
                other => member(addressed, "reasoning"@) == other,
            }
        }),
{
    lemma_request_keys();
}

/// A request is refused exactly when its model is not served, or when it asks for reasoning over all
/// turns with a model that does not have it.
pub proof fn law_requests_are_refused_for_their_model_only(
    members: Map<Seq<char>, Json>,
    profile: RouteProfile,
)
    ensures
        ({
            let served = match member(members, "model"@) {
                Some(Json::Str(model_id)) => match alias_of(model_id) {
                    Some(found) => if found.profile == profile {
                        Some(found)
                    } else {
                        None
                    },
                    None => None,
                },
                _ => None,
            };
            let asks = match member(members, "reasoning"@) {
                Some(Json::Object(reasoning)) => member(reasoning, "context"@) == Some(
                    Json::Str("all_turns"@),
                ),
                _ => false,
            };
            &&& route_refusal(members, profile) == (match served {
                None => Some(ThreadlineError::InvalidModel),
                Some(found) => if asks && !found.supports_reasoning_all_turns {
                    Some(ThreadlineError::UnsupportedReasoningContext)
                } else {
                    None
                },
            })
            &&& requested_alias(members, profile) == served
        }),
{
}

/// Where a request goes: every utility turn to a connection of its own, and of the primary turns
/// the summaries only; all others to a retained session, which continues the response that the
/// client named. Whatever the route, the client's members go along, but for the model, the
/// reasoning, the tools, the members on state and, in a utility turn, the instructions.
pub proof fn law_route_keeps_the_request(
    members: Map<Seq<char>, Json>,
    alias: Alias,
    classification: DownstreamRequestClassification,
    previous_response_id: Option<Seq<char>>,
    profile: RouteProfile,
    persistent_reasoning: bool,
    key: Seq<char>,
)
    requires
        key != "reasoning"@,
        key != "model"@,
    ensures
        ({
            let route = route_of(
                members,
                alias,
                classification,
                previous_response_id,
                profile,
                persistent_reasoning,
            );
            match (profile, classification) {
                (RouteProfile::Utility, _) => route matches Route::Transient { kind, request } && {
                    &&& kind == TransientRouteKind::Utility
                    &&& member(request, "model"@) == Some(Json::Str(alias.upstream_model_id))
                    &&& key != "tools"@ && key != "context_management"@ && key
                        != "previous_response_id"@ && key != "instructions"@ ==> member(request, key)
                        == member(members, key)
                },
                (RouteProfile::Main, DownstreamRequestClassification::AuxiliarySummary) => {
                    route matches Route::Transient { kind, request } && {
                        &&& kind == TransientRouteKind::AuxiliarySummary
                        &&& member(request, "model"@) == Some(Json::Str(alias.upstream_model_id))
                        &&& key != "tools"@ && key != "context_management"@ && key
                            != "previous_response_id"@ ==> member(request, key) == member(
                            members,
                            key,
                        )
                    }
                },
                (RouteProfile::Main, DownstreamRequestClassification::Normal) => {
                    route matches Route::Retained { previous_response_id: continued, request } && {
                        &&& continued == previous_response_id
                        &&& member(request, "model"@) == Some(Json::Str(alias.upstream_model_id))
                        &&& member(request, key) == member(members, key)
                    }
                },
            }
        }),
{
    lemma_request_keys();
    let addressed = addressed_request(members, alias, persistent_reasoning);
    law_addressing_keeps_the_request(members, alias, persistent_reasoning, key, key);
    law_transient_request_keeps_the_request(addressed, key);
    law_transient_request_keeps_the_request(addressed, "model"@);
    law_summarizer_support_only_adds_an_instruction(addressed, key);
    law_summarizer_support_only_adds_an_instruction(addressed, "model"@);
    law_transient_request_keeps_the_request(with_summarizer_support(addressed), key);
    law_transient_request_keeps_the_request(with_summarizer_support(addressed), "model"@);
}

/// From the client to the upstream: the message of a primary turn in a retained session asks for the
/// upstream's model, continues the response that the client named, and otherwise says what the
/// client said.
pub proof fn law_primary_turns_say_what_the_client_said(
    members: Map<Seq<char>, Json>,
    alias: Alias,
    previous_response_id: Option<Seq<char>>,
    persistent_reasoning: bool,
    key: Seq<char>,
)
    requires
        key != "model"@,
        key != "reasoning"@,
        key != "tools"@,
        key != "context_management"@,
        key != "previous_response_id"@,
        key != "instructions"@,
        key != "type"@,
        key != "store"@,
        key != "max_output_tokens"@,
        key != "max_tokens"@,
        key != "max_completion_tokens"@,
        key != "truncation"@,
    ensures
        route_of(
            members,
            alias,
            DownstreamRequestClassification::Normal,
            previous_response_id,
            RouteProfile::Main,
            persistent_reasoning,
        ) matches Route::Retained { previous_response_id: continued, request } && {
            let message = response_create(retained_request(request, continued));
            &&& member(message, "model"@) == Some(Json::Str(alias.upstream_model_id))
            &&& previous_response_id matches Some(marker) ==> member(
                message,
                "previous_response_id"@,
            ) == Some(Json::Str(marker))
            &&& member(message, key) == member(members, key)
            &&& member(members, "instructions"@) matches Some(Json::Str(text)) ==> member(
                message,
                "instructions"@,
            ) == Some(Json::Str(text))
        },
{
    lemma_request_keys();
    let addressed = addressed_request(members, alias, persistent_reasoning);
    let request = retained_request(addressed, previous_response_id);
    law_addressing_keeps_the_request(members, alias, persistent_reasoning, key, key);
    law_addressing_keeps_the_request(
        members,
        alias,
        persistent_reasoning,
        "instructions"@,
        "instructions"@,
    );
    law_retained_request_keeps_the_request(addressed, previous_response_id, key);
    law_retained_request_keeps_the_request(addressed, previous_response_id, "model"@);
    law_retained_request_keeps_the_request(addressed, previous_response_id, "instructions"@);
    reveal_strlit("type");
    reveal_strlit("store");
    reveal_strlit("max_output_tokens");
    reveal_strlit("max_tokens");
    reveal_strlit("max_completion_tokens");
    reveal_strlit("truncation");
    reveal_strlit("model");
    reveal_strlit("instructions");
    reveal_strlit("previous_response_id");
    assert("type"@.len() == 4 && "store"@.len() == 5 && "model"@.len() == 5);
    assert("store"@[0] == 's' && "model"@[0] == 'm');
    assert("instructions"@.len() == 12 && "max_tokens"@.len() == 10 && "truncation"@.len() == 10);
    assert("max_output_tokens"@.len() == 17 && "max_completion_tokens"@.len() == 21);
    assert("previous_response_id"@.len() == 20);
    law_message_keeps_the_request(request, key);
    law_message_keeps_the_request(request, "model"@);
    law_message_keeps_the_request(request, "instructions"@);
    law_message_keeps_the_request(request, "previous_response_id"@);
}

/// A request for a session that is in use may go around it exactly when it is a compaction or a
/// summary: by its header, by its instructions or by its own texts. The first of these is the reason.
pub proof fn law_only_summaries_go_around_a_session(
    diagnostics: DownstreamRequestRoutingDiagnostics,
    members: Map<Seq<char>, Json>,
)
    ensures
        reroute_reason(diagnostics, members) is Some <==> (
        diagnostics.interaction_type_compaction_hit || describes_summary(diagnostics.summary_hits)
            || is_conflict_fallback(members)),
        diagnostics.interaction_type_compaction_hit ==> reroute_reason(diagnostics, members) == Some(
            "interaction_type_compaction"@,
        ),
        !diagnostics.interaction_type_compaction_hit && describes_summary(diagnostics.summary_hits)
            ==> reroute_reason(diagnostics, members) == Some("summary_fingerprint"@),
{
}

/// A session that could not be acquired is reported for the reason that it could not. A continuation
/// whose connection is gone is reported as one whose session is gone, so that the client sends the
/// whole conversation again; every other error stays.
pub proof fn law_sessions_are_refused_for_their_reason(
    refusal: RegistryAcquireError,
    error: ThreadlineError,
)
    ensures
        public_error_of(acquire_error(refusal)).code == (match refusal {
            RegistryAcquireError::PreviousResponseNotFound => "previous_response_not_found"@,
            RegistryAcquireError::RetainedSessionConflict => "retained_session_conflict"@,
            RegistryAcquireError::RetainedSessionCapacityExceeded => {
                "retained_session_capacity_exceeded"@
            },
            RegistryAcquireError::UpstreamInboundBufferOverflow => {
                "upstream_inbound_buffer_overflow"@
            },
        }),
        error == ThreadlineError::UpstreamWebSocketClosed ==> stale_error(error)
            == ThreadlineError::PreviousResponseNotFound,
        error != ThreadlineError::UpstreamWebSocketClosed ==> stale_error(error) == error,
{
}

} // verus!
