//! What holds of every completed response, and of the text that the client is shown.

use crate::errors::{public_error_of, ThreadlineError};
use crate::json::{member, Json, JsonNumber};
use crate::responses::completed::{
    called_tool, client_completed, client_items, client_output, completed_visible_messages,
    event_response_id, first_item_id, is_external_call, is_image, is_internal_call, is_marker, is_observable,
    is_visible_message, item_counts, no_output_failure, observed_with_completed,
    observed_with_event, synthetic_message, text_part, text_parts, visible_messages, Observed,
};
use crate::responses::sse::{failed_document, incomplete_document, scalar_text};
use crate::responses::translation::{completing, Action, Stream};
use crate::responses::visible::{
    already_shown, completed_delta, concatenated, content_texts, event_output, fresh_deltas,
    identity_of, item_texts, key_index, log_with_forwarded, log_with_queued, output_texts, texts_with, visible_part,
    SourceKey, VisibleLog, VisibleText,
};
use crate::text::{decimal_text, is_blank};
use crate::tools::law_internal_names_have_the_prefix;
use vstd::prelude::*;

verus! {

/// The members of an object that are texts.
pub open spec fn text_member(document: Json, key: Seq<char>) -> Option<Seq<char>> {
    match document {
        Json::Object(members) => match member(members, key) {
            Some(Json::Str(text)) => Some(text),
            _ => None,
        },
        _ => None,
    }
}

/// Whether an item of an output calls one of the bridge's tools.
pub open spec fn calls_the_bridge(item: Json) -> bool {
    &&& text_member(item, "type"@) == Some("function_call"@)
    &&& match item {
        Json::Object(members) if members.contains_key("name"@) => text_member(
            item,
            "name"@,
        ) matches Some(name) && "threadline_"@.is_prefix_of(name),
        _ => text_member(item, "tool_name"@) matches Some(name) && "threadline_"@.is_prefix_of(
            name,
        ),
    }
}

/// Whether one of some texts can be read.
pub open spec fn holds_text(texts: Seq<VisibleText>) -> bool {
    exists|i: int| 0 <= i < texts.len() && !is_blank((#[trigger] texts[i]).text)
}

/// Whether an item of an output is a message in which the client can read something.
pub open spec fn shows_text(item: Json) -> bool {
    &&& text_member(item, "type"@) == Some("message"@)
    &&& text_member(item, "role"@) == Some("assistant"@)
    &&& item matches Json::Object(members) && (member(members, "content"@) matches Some(
        Json::Array(content),
    ) && exists|i: int| 0 <= i < content.len() && part_text(#[trigger] content[i]) is Some)
}

/// The text that the client can read in a part of a message.
pub open spec fn part_text(part: Json) -> Option<Seq<char>> {
    match text_member(part, "text"@) {
        Some(text) if text_member(part, "type"@) == Some("output_text"@) && !is_blank(text) => Some(
            text,
        ),
        _ => None,
    }
}

proof fn lemma_items(item: Json)
    ensures
        is_internal_call(item) == calls_the_bridge(item),
        is_visible_message(item) == shows_text(item),
        visible_part(item) == part_text(item),
{
    if let Some(name) = called_tool(item) {
        law_internal_names_have_the_prefix(name);
    }
    law_internal_names_have_the_prefix(Seq::empty());
    if let Json::Object(members) = item {
        if let Some(Json::Array(content)) = member(members, "content"@) {
            assert forall|i: int| 0 <= i < content.len() implies visible_part(
                #[trigger] content[i],
            ) == part_text(content[i]) by {}
            if is_visible_message(item) {
                let i = choose|i: int|
                    0 <= i < content.len() && visible_part(#[trigger] content[i]) is Some;
                assert(part_text(content[i]) is Some);
            }
            if shows_text(item) {
                let i = choose|i: int|
                    0 <= i < content.len() && part_text(#[trigger] content[i]) is Some;
                assert(visible_part(content[i]) is Some);
            }
        }
    }
}

proof fn lemma_client_items(items: Seq<Json>, count: int)
    requires
        0 <= count <= items.len(),
    ensures
        client_items(items, count) == items.take(count).filter(
            |item: Json| !calls_the_bridge(item),
        ),
    decreases count,
{
    reveal(Seq::filter);
    if count > 0 {
        lemma_client_items(items, count - 1);
        lemma_items(items[count - 1]);
        assert(items.take(count).drop_last() =~= items.take(count - 1));
        assert(items.take(count).last() == items[count - 1]);
    }
}

proof fn lemma_visible_messages(items: Seq<Json>, count: int)
    requires
        0 <= count <= items.len(),
    ensures
        visible_messages(items, count) > 0 <==> exists|i: int|
            0 <= i < count && shows_text(#[trigger] items[i]),
    decreases count,
{
    if count > 0 {
        lemma_visible_messages(items, count - 1);
        lemma_items(items[count - 1]);
        if visible_messages(items, count - 1) > 0 {
            let i = choose|i: int| 0 <= i < count - 1 && shows_text(#[trigger] items[i]);
            assert(shows_text(items[i]));
        }
        if shows_text(items[count - 1]) {
            assert(0 <= count - 1 < count && shows_text(items[count - 1]));
        }
        if exists|i: int| 0 <= i < count && shows_text(#[trigger] items[i]) {
            let i = choose|i: int| 0 <= i < count && shows_text(#[trigger] items[i]);
            if i < count - 1 {
                assert(0 <= i < count - 1 && shows_text(items[i]));
            }
        }
    }
}

/// Whether a message repeats texts that the client was shown: one part for each text that is not
/// blank, in their order.
pub open spec fn repeats_texts(message: Json, texts: Seq<VisibleText>) -> bool {
    &&& text_member(message, "type"@) == Some("message"@)
    &&& text_member(message, "role"@) == Some("assistant"@)
    &&& message matches Json::Object(members) && (member(members, "content"@) matches Some(
        Json::Array(parts),
    ) && {
        let shown = texts.filter(|text: VisibleText| !is_blank(text.text));
        &&& parts.len() == shown.len()
        &&& forall|i: int|
            0 <= i < shown.len() ==> text_member(#[trigger] parts[i], "type"@) == Some(
                "output_text"@,
            ) && text_member(parts[i], "text"@) == Some(shown[i].text)
    })
}

proof fn lemma_text_parts(texts: Seq<VisibleText>, count: int)
    requires
        0 <= count <= texts.len(),
    ensures
        ({
            let shown = texts.take(count).filter(|text: VisibleText| !is_blank(text.text));
            let parts = text_parts(texts, count);
            &&& parts.len() == shown.len()
            &&& forall|i: int| 0 <= i < shown.len() ==> #[trigger] parts[i] == text_part(shown[i].text)
        }),
    decreases count,
{
    reveal(Seq::filter);
    if count > 0 {
        lemma_text_parts(texts, count - 1);
        assert(texts.take(count).drop_last() =~= texts.take(count - 1));
        assert(texts.take(count).last() == texts[count - 1]);
    }
}

proof fn lemma_part(text: Seq<char>)
    ensures
        text_member(text_part(text), "type"@) == Some("output_text"@),
        text_member(text_part(text), "text"@) == Some(text),
{
    reveal_strlit("type");
    reveal_strlit("text");
    reveal_strlit("annotations");
    assert("type"@.len() == 4 && "text"@.len() == 4 && "annotations"@.len() == 11);
    assert("type"@[1] == 'y' && "text"@[1] == 'e');
}

proof fn lemma_synthetic_message(response_id: Option<Seq<char>>, texts: Seq<VisibleText>)
    ensures
        synthetic_message(response_id, texts) is Some <==> holds_text(texts),
        synthetic_message(response_id, texts) matches Some(message) ==> repeats_texts(
            message,
            texts,
        ),
{
    reveal_strlit("id");
    reveal_strlit("type");
    reveal_strlit("role");
    reveal_strlit("content");
    assert("id"@.len() == 2 && "type"@.len() == 4 && "role"@.len() == 4 && "content"@.len() == 7);
    assert("type"@[0] == 't' && "role"@[0] == 'r');
    lemma_text_parts(texts, texts.len() as int);
    assert(texts.take(texts.len() as int) =~= texts);
    let is_shown = |text: VisibleText| !is_blank(text.text);
    let shown = texts.filter(is_shown);
    let parts = text_parts(texts, texts.len() as int);
    assert forall|i: int| 0 <= i < shown.len() implies text_member(#[trigger] parts[i], "type"@)
        == Some("output_text"@) && text_member(parts[i], "text"@) == Some(shown[i].text) by {
        lemma_part(shown[i].text);
    }
    if shown.len() > 0 {
        assert(shown.contains(shown[0]));
        texts.filter_lemma(is_shown);
        assert(is_shown(shown[0]));
        texts.lemma_filter_contains_rev(is_shown, shown[0]);
        let i = choose|i: int| 0 <= i < texts.len() && texts[i] == shown[0];
        assert(!is_blank(texts[i].text));
    }
    if holds_text(texts) {
        let i = choose|i: int| 0 <= i < texts.len() && !is_blank((#[trigger] texts[i]).text);
        texts.filter_lemma(is_shown);
        assert(is_shown(texts[i]));
        assert(shown.contains(texts[i]));
    }
}

/// A completed response reaches the client as the upstream made it, but for its output: everything
/// else in the event and in the response stays. From the output exactly the calls of the bridge's
/// tools are taken; the other items stay, in their order. Behind them comes one message, only if
/// there is none in which the client can read something, and it repeats what the client was shown.
pub proof fn law_completed_responses_keep_the_clients_output(
    event: Map<Seq<char>, Json>,
    response: Map<Seq<char>, Json>,
    texts: Seq<VisibleText>,
    key: Seq<char>,
)
    requires
        member(event, "response"@) == Some(Json::Object(response)),
    ensures
        client_completed(Json::Object(event), texts) matches Json::Object(shown) && {
            &&& key != "response"@ ==> member(shown, key) == member(event, key)
            &&& member(shown, "response"@) matches Some(Json::Object(made)) && {
                &&& key != "output"@ ==> member(made, key) == member(response, key)
                &&& match member(response, "output"@) {
                    Some(Json::Array(items)) => member(made, "output"@) matches Some(
                        Json::Array(output),
                    ) && {
                        let kept = items.filter(|item: Json| !calls_the_bridge(item));
                        let readable = exists|i: int|
                            0 <= i < kept.len() && shows_text(#[trigger] kept[i]);
                        if readable || !holds_text(texts) {
                            output == kept
                        } else {
                            output.len() == kept.len() + 1 && kept.is_prefix_of(output)
                                && repeats_texts(output.last(), texts)
                        }
                    },
                    other => if holds_text(texts) {
                        member(made, "output"@) matches Some(Json::Array(output)) && output.len()
                            == 1 && repeats_texts(output[0], texts)
                    } else {
                        member(made, "output"@) == other
                    },
                }
            }
        },
{
    let id = event_response_id(Json::Object(event));
    lemma_synthetic_message(id, texts);
    if let Some(Json::Array(items)) = member(response, "output"@) {
        lemma_client_items(items, items.len() as int);
        assert(items.take(items.len() as int) =~= items);
        let kept = client_items(items, items.len() as int);
        lemma_visible_messages(kept, kept.len() as int);
    }
}

/// An event without a response in it reaches the client as it is.
pub proof fn law_completions_without_a_response_stay(event: Json, texts: Seq<VisibleText>)
    requires
        event matches Json::Object(members) ==> !(member(members, "response"@) matches Some(
            Json::Object(_),
        )),
    ensures
        client_completed(event, texts) == event,
{
}

/// A response that the upstream completed, while no output of the bridge's tools waits, is queued
/// for the client as it may see it, and the session is not touched yet. Where the client was shown
/// no text so far, the text of the response is queued before it. Only a guarded stream whose
/// response shows the client nothing fails in its place.
pub proof fn law_completions_are_queued(stream: Stream, event: Json)
    requires
        stream.pending.len() == 0,
    ensures
        ({
            let (next, action) = completing(stream, event);
            let fails = stream.guard_output && !is_observable(next.observed);
            &&& !fails ==> action == Action::Advance && next.queued_completed == Some(
                client_completed(event, next.visible.texts),
            ) && next.done_pending == stream.done_pending
            &&& fails ==> next.queued_completed == stream.queued_completed && next.done_pending
                && !(action is Advance)
            &&& holds_text(stream.visible.texts) ==> next.visible == stream.visible
                && next.queued_deltas == stream.queued_deltas
            &&& !holds_text(stream.visible.texts) ==> next.queued_deltas
                == stream.queued_deltas + fresh_deltas(stream.visible, completed_delta(event))
            &&& next == Stream {
                observed: next.observed,
                visible: next.visible,
                queued_deltas: next.queued_deltas,
                queued_completed: next.queued_completed,
                done_pending: next.done_pending,
                ..stream
            }
            &&& next.observed == Observed {
                final_messages: next.observed.final_messages,
                final_external_calls: next.observed.final_external_calls,
                final_images: next.observed.final_images,
                final_markers: next.observed.final_markers,
                ..stream.observed
            }
        }),
{
}

/// Something was observed exactly when one of the counts is not zero.
pub proof fn law_observed_output_is_counted(observed: Observed)
    ensures
        !is_observable(observed) <==> (observed.text_deltas == 0 && observed.external_calls == 0
            && observed.images == 0 && observed.markers == 0 && observed.final_messages == 0
            && observed.final_external_calls == 0 && observed.final_images == 0
            && observed.final_markers == 0),
{
}

/// Text and arguments that are forwarded to the client count as output that it can observe, and so
/// do items with a call of another tool, an image or a marker. What was observed stays so.
pub proof fn law_forwarded_output_is_observed(observed: Observed, kind: Seq<char>, event: Json)
    ensures
        ({
            let next = observed_with_event(observed, kind, event);
            &&& is_observable(observed) ==> is_observable(next)
            &&& kind == "response.output_text.delta"@ || kind
                == "response.function_call_arguments.delta"@ || kind
                == "response.function_call_arguments.done"@ ==> is_observable(next)
            &&& (kind == "response.output_item.added"@ || kind == "response.output_item.done"@) && (
            event matches Json::Object(members) && (member(members, "item"@) matches Some(item)
                && is_observable_item(item))) ==> is_observable(next)
            &&& next.last_event_type == observed.last_event_type
        }),
{
    reveal_strlit("response.output_text.delta");
    reveal_strlit("response.function_call_arguments.delta");
    reveal_strlit("response.function_call_arguments.done");
    reveal_strlit("response.output_item.added");
    reveal_strlit("response.output_item.done");
    assert("response.output_text.delta"@.len() == 26 && "response.output_text.delta"@[16] == 't');
    assert("response.output_item.added"@.len() == 26 && "response.output_item.added"@[16] == 'i');
    assert("response.output_item.done"@.len() == 25);
    assert("response.function_call_arguments.delta"@.len() == 38);
    assert("response.function_call_arguments.done"@.len() == 37);
    if let Json::Object(members) = event {
        if let Some(item) = member(members, "item"@) {
            lemma_observable_item(item);
        }
    }
}

/// Whether an item is something that the client can observe besides a message: a call of a tool that
/// is not the bridge's, an image, or a marker of compaction or context.
pub open spec fn is_observable_item(item: Json) -> bool {
    ||| text_member(item, "type"@) == Some("function_call"@) && match item {
        Json::Object(members) if members.contains_key("name"@) => text_member(
            item,
            "name"@,
        ) matches Some(name) && !"threadline_"@.is_prefix_of(name),
        _ => text_member(item, "tool_name"@) matches Some(name) && !"threadline_"@.is_prefix_of(
            name,
        ),
    }
    ||| text_member(item, "type"@) == Some("image_generation_call"@) && (text_member(
        item,
        "result"@,
    ) matches Some(result) && !is_blank(result))
    ||| text_member(item, "type"@) == Some("compaction"@)
    ||| text_member(item, "type"@) == Some("context"@)
}

proof fn lemma_observable_item(item: Json)
    ensures
        is_observable_item(item) == (is_external_call(item) || is_image(item) || is_marker(item)),
{
    if let Some(name) = called_tool(item) {
        law_internal_names_have_the_prefix(name);
    }
}

proof fn lemma_item_counts(items: Seq<Json>, count: int)
    requires
        0 <= count <= items.len(),
    ensures
        ({
            let (calls, images, markers) = item_counts(items, count);
            calls + images + markers > 0 <==> exists|i: int|
                0 <= i < count && is_observable_item(#[trigger] items[i])
        }),
    decreases count,
{
    if count > 0 {
        lemma_item_counts(items, count - 1);
        lemma_observable_item(items[count - 1]);
        let (calls, images, markers) = item_counts(items, count - 1);
        if calls + images + markers > 0 {
            let i = choose|i: int| 0 <= i < count - 1 && is_observable_item(#[trigger] items[i]);
            assert(is_observable_item(items[i]));
        }
        if exists|i: int| 0 <= i < count && is_observable_item(#[trigger] items[i]) {
            let i = choose|i: int| 0 <= i < count && is_observable_item(#[trigger] items[i]);
            if i < count - 1 {
                assert(is_observable_item(items[i]));
            } else {
                assert(is_observable_item(items[count - 1]));
            }
        }
    }
}

/// A completed response shows the client something exactly when something was forwarded before, when
/// a message in it can be read, or when its output holds something that can be observed.
pub proof fn law_completed_output_is_observed(observed: Observed, event: Json, readable: nat)
    ensures
        is_observable(observed_with_completed(observed, event, readable)) <==> {
            ||| observed.text_deltas > 0
            ||| observed.external_calls > 0
            ||| observed.images > 0
            ||| observed.markers > 0
            ||| readable > 0
            ||| event matches Json::Object(members) && (member(members, "response"@) matches Some(
                Json::Object(response),
            ) && (member(response, "output"@) matches Some(Json::Array(items)) && exists|i: int|
                0 <= i < items.len() && is_observable_item(#[trigger] items[i])))
        },
{
    if let Some(items) = event_output(event) {
        lemma_item_counts(items, items.len() as int);
    }
}

/// The messages of a completed response that are counted as readable are there: the count is zero
/// exactly when what the client gets holds no message in which it can read something.
pub proof fn law_readable_messages_are_counted(
    event: Map<Seq<char>, Json>,
    response: Map<Seq<char>, Json>,
    texts: Seq<VisibleText>,
)
    requires
        member(event, "response"@) == Some(Json::Object(response)),
        member(response, "output"@) matches Some(Json::Array(_)),
    ensures
        client_completed(Json::Object(event), texts) matches Json::Object(shown) && {
            &&& member(shown, "response"@) matches Some(Json::Object(made)) && {
                &&& member(made, "output"@) matches Some(Json::Array(output)) && {
                    completed_visible_messages(Json::Object(event), texts) > 0 <==> can_be_read(
                        output,
                    )
                }
            }
        },
{
    let items = member(response, "output"@)->0->Array_0;
    let output = client_output(items, event_response_id(Json::Object(event)), texts);
    lemma_visible_messages(output, output.len() as int);
    let shown = client_completed(Json::Object(event), texts)->Object_0;
    let made = member(shown, "response"@)->0->Object_0;
    assert(member(shown, "response"@) == Some(Json::Object(made)));
    assert(member(made, "output"@) == Some(Json::Array(output)));
    if visible_messages(output, output.len() as int) > 0 {
        let i = choose|i: int| 0 <= i < output.len() && shows_text(#[trigger] output[i]);
        assert(shows_text(output[i]));
        assert(can_be_read(output));
    }
}

/// Whether an output holds a message in which the client can read something.
pub open spec fn can_be_read(output: Seq<Json>) -> bool {
    exists|i: int| 0 <= i < output.len() && shows_text(#[trigger] output[i])
}

/// A failure that is told to the client keeps what the upstream said: the id and the model of the
/// response, its usage and its output, and the code and the message of the error. Where the upstream
/// gave no code or message, the client is told that the upstream's response failed.
pub proof fn law_failures_keep_what_the_upstream_said(payload: Map<Seq<char>, Json>)
    ensures
        failed_document(Json::Object(payload)) matches Json::Object(shown) && {
            &&& member(shown, "type"@) == Some(Json::Str("response.failed"@))
            &&& member(shown, "response"@) matches Some(Json::Object(told)) && {
                let fallback = public_error_of(ThreadlineError::UpstreamResponseFailed);
                &&& member(told, "status"@) == Some(Json::Str("failed"@))
                &&& keeps_response(payload, told)
                &&& member(told, "error"@) matches Some(Json::Object(error)) && {
                    &&& member(error, "code"@) == Some(
                        Json::Str(
                            match scalar_in(member(payload, "error"@), "code"@) {
                                Some(code) => code,
                                None => fallback.code,
                            },
                        ),
                    )
                    &&& member(error, "message"@) == Some(
                        Json::Str(
                            match scalar_in(member(payload, "error"@), "message"@) {
                                Some(message) => message,
                                None => fallback.message,
                            },
                        ),
                    )
                }
            }
        },
{
    lemma_told_keys();
}

/// An incomplete response that is told to the client keeps what the upstream said, and says why it
/// is incomplete where the upstream did.
pub proof fn law_incomplete_responses_keep_what_the_upstream_said(payload: Map<Seq<char>, Json>)
    ensures
        incomplete_document(Json::Object(payload)) matches Json::Object(shown) && {
            &&& member(shown, "type"@) == Some(Json::Str("response.incomplete"@))
            &&& member(shown, "response"@) matches Some(Json::Object(told)) && {
                &&& member(told, "status"@) == Some(Json::Str("incomplete"@))
                &&& keeps_response(payload, told)
                &&& match member(payload, "response"@) {
                    Some(Json::Object(response)) => match scalar_in(
                        member(response, "incomplete_details"@),
                        "reason"@,
                    ) {
                        Some(reason) => member(told, "incomplete_details"@) matches Some(
                            Json::Object(details),
                        ) && member(details, "reason"@) == Some(Json::Str(reason)),
                        None => member(told, "incomplete_details"@) is None,
                    },
                    _ => member(told, "incomplete_details"@) is None,
                }
            }
        },
{
    lemma_told_keys();
}

/// The text of a member that is a text, a number or a truth value.
pub open spec fn scalar_in(document: Option<Json>, key: Seq<char>) -> Option<Seq<char>> {
    match document {
        Some(Json::Object(members)) => match member(members, key) {
            Some(value) => scalar_text(value),
            None => None,
        },
        _ => None,
    }
}

/// Whether what the client is told of a response has the id, the model, the usage and the output of
/// the response.
pub open spec fn keeps_response(payload: Map<Seq<char>, Json>, told: Map<Seq<char>, Json>) -> bool {
    match member(payload, "response"@) {
        Some(Json::Object(response)) => {
            &&& member(told, "id"@) == as_text(scalar_in(Some(Json::Object(response)), "id"@))
            &&& member(told, "model"@) == as_text(scalar_in(Some(Json::Object(response)), "model"@))
            &&& member(told, "usage"@) == (match member(response, "usage"@) {
                Some(Json::Object(usage)) => Some(Json::Object(usage)),
                _ => None,
            })
            &&& member(told, "output"@) == (match member(response, "output"@) {
                Some(Json::Array(output)) => Some(Json::Array(output)),
                _ => None,
            })
        },
        _ => member(told, "id"@) is None && member(told, "model"@) is None && member(
            told,
            "usage"@,
        ) is None && member(told, "output"@) is None,
    }
}

/// A text as a member.
pub open spec fn as_text(text: Option<Seq<char>>) -> Option<Json> {
    match text {
        Some(value) => Some(Json::Str(value)),
        None => None,
    }
}

/// A text stands for itself, a number for its digits and a truth value for its word.
pub proof fn law_scalars_are_written_out(text: Seq<char>, number: u64, flag: bool)
    ensures
        scalar_text(Json::Str(text)) == Some(text),
        scalar_text(Json::Number(JsonNumber::Unsigned(number))) == Some(decimal_text(number as nat)),
        scalar_text(Json::Bool(flag)) == Some(
            if flag {
                "true"@
            } else {
                "false"@
            },
        ),
        scalar_text(Json::Null) is None,
{
}

proof fn lemma_told_keys()
    ensures
        "type"@ != "response"@,
        "id"@ != "model"@,
        "id"@ != "usage"@,
        "id"@ != "output"@,
        "id"@ != "status"@,
        "id"@ != "error"@,
        "id"@ != "incomplete_details"@,
        "model"@ != "usage"@,
        "model"@ != "output"@,
        "model"@ != "status"@,
        "model"@ != "error"@,
        "model"@ != "incomplete_details"@,
        "usage"@ != "output"@,
        "usage"@ != "status"@,
        "usage"@ != "error"@,
        "usage"@ != "incomplete_details"@,
        "output"@ != "status"@,
        "output"@ != "error"@,
        "output"@ != "incomplete_details"@,
        "status"@ != "error"@,
        "status"@ != "incomplete_details"@,
        "code"@ != "message"@,
{
    reveal_strlit("type");
    reveal_strlit("response");
    reveal_strlit("error");
    reveal_strlit("id");
    reveal_strlit("model");
    reveal_strlit("usage");
    reveal_strlit("output");
    reveal_strlit("status");
    reveal_strlit("incomplete_details");
    reveal_strlit("code");
    reveal_strlit("message");
    assert("type"@.len() == 4 && "response"@.len() == 8 && "id"@.len() == 2);
    assert("error"@.len() == 5 && "error"@[0] == 'e');
    assert("model"@.len() == 5 && "model"@[0] == 'm');
    assert("usage"@.len() == 5 && "usage"@[0] == 'u');
    assert("output"@.len() == 6 && "output"@[0] == 'o');
    assert("status"@.len() == 6 && "status"@[0] == 's');
    assert("incomplete_details"@.len() == 18);
    assert("code"@.len() == 4 && "message"@.len() == 7);
}

/// The failure of a response that showed the client nothing says so, and which response it was.
pub proof fn law_empty_responses_are_failures(response_id: Option<Seq<char>>)
    ensures
        failed_document(no_output_failure(response_id)) matches Json::Object(shown) && {
            &&& member(shown, "response"@) matches Some(Json::Object(told)) && {
                &&& member(told, "status"@) == Some(Json::Str("failed"@))
                &&& response_id matches Some(id) ==> id.len() > 0 ==> member(told, "id"@) == Some(
                    Json::Str(id),
                )
                &&& member(told, "error"@) matches Some(Json::Object(error)) && member(
                    error,
                    "code"@,
                ) == Some(Json::Str("threadline_no_observable_output"@))
            }
        },
{
    lemma_told_keys();
    reveal_strlit("type");
    reveal_strlit("error");
    reveal_strlit("response");
    assert("type"@.len() == 4 && "error"@.len() == 5 && "response"@.len() == 8);
}

/// Text that the client is shown is kept where it belongs: behind what was shown for the same place,
/// or in a place of its own behind all others. Other places are not touched, and blank text changes
/// nothing.
pub proof fn law_shown_text_is_kept_in_its_place(texts: Seq<VisibleText>, shown: VisibleText)
    ensures
        ({
            let after = texts_with(texts, shown);
            if is_blank(shown.text) {
                after == texts
            } else if forall|i: int| 0 <= i < texts.len() ==> (#[trigger] texts[i]).key != shown.key {
                after == texts.push(shown)
            } else {
                exists|i: int| extends_text(texts, after, i, shown)
            }
        }),
{
    lemma_key_index(texts, shown.key, 0);
    let index = key_index(texts, shown.key, 0);
    if !is_blank(shown.text) && index < texts.len() {
        assert(extends_text(texts, texts_with(texts, shown), index, shown));
    }
}

/// Whether texts are others with one of them extended.
pub open spec fn extends_text(
    before: Seq<VisibleText>,
    after: Seq<VisibleText>,
    index: int,
    shown: VisibleText,
) -> bool {
    &&& 0 <= index < before.len()
    &&& before[index].key == shown.key
    &&& after == before.update(
        index,
        VisibleText { key: shown.key, text: before[index].text + shown.text },
    )
}

proof fn lemma_key_index(texts: Seq<VisibleText>, key: SourceKey, from: int)
    requires
        0 <= from <= texts.len(),
    ensures
        from <= key_index(texts, key, from) <= texts.len(),
        key_index(texts, key, from) < texts.len() ==> texts[key_index(texts, key, from)].key == key,
        key_index(texts, key, from) == texts.len() ==> forall|i: int|
            from <= i < texts.len() ==> (#[trigger] texts[i]).key != key,
    decreases texts.len() - from,
{
    if from < texts.len() && texts[from].key != key {
        lemma_key_index(texts, key, from + 1);
    }
}

/// Where a text comes from, as far as an event says it.
pub open spec fn place_of(event: Map<Seq<char>, Json>) -> SourceKey {
    SourceKey {
        item_id: text_member(Json::Object(event), "item_id"@),
        output_index: number_in(event, "output_index"@),
        content_index: number_in(event, "content_index"@),
    }
}

/// A member that is a number without a sign or a fraction.
pub open spec fn number_in(members: Map<Seq<char>, Json>, key: Seq<char>) -> Option<u64> {
    match member(members, key) {
        Some(Json::Number(JsonNumber::Unsigned(value))) => Some(value),
        _ => None,
    }
}

/// Whether two places are the same: they are in the same item or, where no item is named, at the
/// same place of the output, and in the same part.
pub open spec fn same_place(first: SourceKey, second: SourceKey) -> bool {
    &&& first.content_index == second.content_index
    &&& match (first.item_id, second.item_id) {
        (Some(one), Some(other)) => one == other,
        (None, None) => first.output_index is Some && first.output_index == second.output_index,
        _ => false,
    }
}

/// Two texts are told apart by their places.
pub proof fn law_texts_are_told_apart_by_their_place(first: SourceKey, second: SourceKey)
    ensures
        identity_of(first) is None <==> first.item_id is None && first.output_index is None,
        identity_of(first) is Some ==> (identity_of(first) == identity_of(second) <==> same_place(
            first,
            second,
        )),
{
}

/// Text whose place was not shown yet is shown, all of it and in order.
pub proof fn law_new_text_is_shown(log: VisibleLog, deltas: Seq<VisibleText>)
    requires
        forall|i: int|
            0 <= i < deltas.len() ==> identity_of((#[trigger] deltas[i]).key) is Some
                && !log.sources.contains(identity_of(deltas[i].key)->0),
        forall|i: int, j: int|
            0 <= i < j < deltas.len() ==> !same_place(
                (#[trigger] deltas[i]).key,
                (#[trigger] deltas[j]).key,
            ),
    ensures
        fresh_deltas(log, deltas) == deltas,
        forall|identity|
            log_with_queued(log, deltas).sources.contains(identity) <==> log.sources.contains(
                identity,
            ) || exists|i: int|
                0 <= i < deltas.len() && identity_of((#[trigger] deltas[i]).key) == Some(identity),
    decreases deltas.len(),
{
    if deltas.len() > 0 {
        let rest = deltas.drop_last();
        let last = deltas.last();
        assert forall|i: int| 0 <= i < rest.len() implies identity_of(
            (#[trigger] rest[i]).key,
        ) is Some && !log.sources.contains(identity_of(rest[i].key)->0) by {
            assert(rest[i] == deltas[i]);
        }
        assert forall|i: int, j: int| 0 <= i < j < rest.len() implies !same_place(
            (#[trigger] rest[i]).key,
            (#[trigger] rest[j]).key,
        ) by {
            assert(rest[i] == deltas[i] && rest[j] == deltas[j]);
        }
        law_new_text_is_shown(log, rest);
        let earlier = log_with_queued(log, rest);
        let identity = identity_of(last.key)->0;
        assert(last == deltas[deltas.len() - 1]);
        if earlier.sources.contains(identity) {
            let i = choose|i: int|
                0 <= i < rest.len() && identity_of((#[trigger] rest[i]).key) == Some(identity);
            assert(rest[i] == deltas[i]);
            law_texts_are_told_apart_by_their_place(deltas[i].key, last.key);
            assert(false);
        }
        assert(!already_shown(earlier, last));
        assert(rest.push(last) =~= deltas);
        let all = log_with_queued(log, deltas);
        assert forall|one| all.sources.contains(one) <==> log.sources.contains(one) || exists|i: int|
            0 <= i < deltas.len() && identity_of((#[trigger] deltas[i]).key) == Some(one) by {
            if earlier.sources.contains(one) && !log.sources.contains(one) {
                let i = choose|i: int|
                    0 <= i < rest.len() && identity_of((#[trigger] rest[i]).key) == Some(one);
                assert(rest[i] == deltas[i]);
            }
            if exists|i: int|
                0 <= i < deltas.len() && identity_of((#[trigger] deltas[i]).key) == Some(one) {
                let i = choose|i: int|
                    0 <= i < deltas.len() && identity_of((#[trigger] deltas[i]).key) == Some(one);
                if i < rest.len() {
                    assert(rest[i] == deltas[i]);
                }
            }
        }
    }
}

/// Text of which nothing is known but the text itself is shown, unless it repeats the last such
/// text.
pub proof fn law_unplaced_text_is_not_repeated(log: VisibleLog, delta: VisibleText)
    requires
        delta.key.item_id is None,
        delta.key.output_index is None,
    ensures
        fresh_deltas(log, seq![delta]) == (if log.last_unidentified == Some(delta.text) {
            Seq::<VisibleText>::empty()
        } else {
            seq![delta]
        }),
{
    let one = seq![delta];
    assert(one.drop_last() =~= Seq::<VisibleText>::empty());
    reveal_with_fuel(fresh_deltas, 2);
    reveal_with_fuel(log_with_queued, 2);
    assert(fresh_deltas(log, one.drop_last()) =~= Seq::<VisibleText>::empty());
    assert(Seq::<VisibleText>::empty().push(delta) =~= one);
}

/// The texts of an item are those parts of an assistant's message that the client can read, in their
/// order, each with the item, the place in the output and the part that it comes from.
pub proof fn law_item_texts_are_its_readable_parts(
    item: Map<Seq<char>, Json>,
    content: Seq<Json>,
    output_index: Option<u64>,
)
    requires
        member(item, "content"@) == Some(Json::Array(content)),
        content.len() <= u64::MAX,
    ensures
        ({
            let texts = item_texts(Json::Object(item), output_index);
            let readable = content.filter(|part: Json| part_text(part) is Some);
            if text_member(Json::Object(item), "type"@) == Some("message"@) && text_member(
                Json::Object(item),
                "role"@,
            ) == Some("assistant"@) {
                &&& texts.len() == readable.len()
                &&& forall|i: int|
                    0 <= i < texts.len() ==> {
                        &&& Some((#[trigger] texts[i]).text) == part_text(readable[i])
                        &&& texts[i].key.item_id == text_member(Json::Object(item), "id"@)
                        &&& texts[i].key.output_index == output_index
                        &&& texts[i].key.content_index matches Some(part) && part < content.len()
                            && content[part as int] == readable[i]
                    }
            } else {
                texts.len() == 0
            }
        }),
{
    lemma_content_texts(
        content,
        text_member(Json::Object(item), "id"@),
        output_index,
        content.len() as int,
    );
    assert(content.take(content.len() as int) =~= content);
}

proof fn lemma_content_texts(
    content: Seq<Json>,
    item_id: Option<Seq<char>>,
    output_index: Option<u64>,
    count: int,
)
    requires
        0 <= count <= content.len() <= u64::MAX,
    ensures
        ({
            let texts = content_texts(content, item_id, output_index, count);
            let readable = content.take(count).filter(|part: Json| part_text(part) is Some);
            &&& texts.len() == readable.len()
            &&& forall|i: int|
                0 <= i < texts.len() ==> {
                    &&& Some((#[trigger] texts[i]).text) == part_text(readable[i])
                    &&& texts[i].key.item_id == item_id
                    &&& texts[i].key.output_index == output_index
                    &&& texts[i].key.content_index matches Some(part) && part < content.len()
                        && content[part as int] == readable[i]
                }
        }),
    decreases count,
{
    reveal(Seq::filter);
    if count > 0 {
        lemma_content_texts(content, item_id, output_index, count - 1);
        lemma_items(content[count - 1]);
        assert(content.take(count).drop_last() =~= content.take(count - 1));
        assert(content.take(count).last() == content[count - 1]);
    }
}

/// The text of a completed response is all that can be read in its output, in order: an item adds
/// its texts behind those of the items before it. It is shown as one text, unless it is blank.
pub proof fn law_completed_text_is_all_text(
    event: Map<Seq<char>, Json>,
    response: Map<Seq<char>, Json>,
    items: Seq<Json>,
    item: Json,
)
    requires
        member(event, "response"@) == Some(Json::Object(response)),
        member(response, "output"@) == Some(Json::Array(items.push(item))),
    ensures
        ({
            let before = output_texts(items, items.len() as int);
            let added = item_texts(item, Some(items.len() as u64));
            let delta = completed_delta(Json::Object(event));
            let text = concatenated(before) + concatenated(added);
            &&& output_texts(items.push(item), items.len() + 1int) == before + added
            &&& (before + added).len() == 0 || is_blank(text) ==> delta.len() == 0
            &&& (before + added).len() > 0 && !is_blank(text) ==> delta.len() == 1 && delta[0].text
                == text && delta[0].key == (before + added)[0].key
        }),
{
    let all = items.push(item);
    lemma_output_texts_of_front(all, items, items.len() as int);
    assert(all[items.len() as int] == item);
    lemma_concatenated(
        output_texts(items, items.len() as int),
        item_texts(item, Some(items.len() as u64)),
    );
}

proof fn lemma_output_texts_of_front(all: Seq<Json>, items: Seq<Json>, count: int)
    requires
        items.is_prefix_of(all),
        0 <= count <= items.len(),
    ensures
        output_texts(all, count) == output_texts(items, count),
    decreases count,
{
    if count > 0 {
        lemma_output_texts_of_front(all, items, count - 1);
        assert(all[count - 1] == items[count - 1]);
    }
}

proof fn lemma_concatenated(first: Seq<VisibleText>, second: Seq<VisibleText>)
    ensures
        concatenated(first + second) == concatenated(first) + concatenated(second),
    decreases second.len(),
{
    if second.len() == 0 {
        assert(first + second =~= first);
        assert(concatenated(first) + Seq::<char>::empty() =~= concatenated(first));
    } else {
        lemma_concatenated(first, second.drop_last());
        assert((first + second).drop_last() =~= first + second.drop_last());
        assert((first + second).last() == second.last());
        assert(concatenated(first) + (concatenated(second.drop_last()) + second.last().text) =~= (
        concatenated(first) + concatenated(second.drop_last())) + second.last().text);
    }
}

/// The text of one item alone is its own text, and that of several is each behind the other.
pub proof fn law_texts_are_put_together_in_order(first: Seq<VisibleText>, second: Seq<VisibleText>)
    ensures
        concatenated(first + second) == concatenated(first) + concatenated(second),
        first.len() == 1 ==> concatenated(first) == first[0].text,
        first.len() == 0 ==> concatenated(first).len() == 0,
{
    lemma_concatenated(first, second);
    if first.len() == 1 {
        reveal_with_fuel(concatenated, 2);
        assert(first.drop_last() =~= Seq::<VisibleText>::empty());
        assert(Seq::<char>::empty() + first[0].text =~= first[0].text);
    }
}

/// A guarded stream lets a response pass exactly when the client was shown something: by what was
/// forwarded, by a message that it can read, or by an item that it can observe.
pub proof fn law_guards_let_visible_responses_pass(
    stream: Stream,
    event: Map<Seq<char>, Json>,
    response: Map<Seq<char>, Json>,
    items: Seq<Json>,
)
    requires
        stream.pending.len() == 0,
        stream.guard_output,
        stream.queued_completed is None,
        member(event, "response"@) == Some(Json::Object(response)),
        member(response, "output"@) == Some(Json::Array(items)),
    ensures
        ({
            let next = completing(stream, Json::Object(event)).0;
            let shown = client_completed(Json::Object(event), next.visible.texts);
            let output = shown->Object_0["response"@]->Object_0["output"@]->Array_0;
            let forwarded = stream.observed.text_deltas > 0 || stream.observed.external_calls > 0
                || stream.observed.images > 0 || stream.observed.markers > 0;
            next.queued_completed is Some <==> (forwarded || can_be_read(output)
                || can_be_observed(output))
        }),
{
    let next = completing(stream, Json::Object(event)).0;
    let texts = next.visible.texts;
    law_readable_messages_are_counted(event, response, texts);
    let shown = client_completed(Json::Object(event), texts);
    let made = shown->Object_0["response"@];
    let output = made->Object_0["output"@]->Array_0;
    assert(event_output(shown) == Some(output));
    lemma_item_counts(output, output.len() as int);
}

/// Whether an output holds an item, besides messages, that the client can observe.
pub open spec fn can_be_observed(output: Seq<Json>) -> bool {
    exists|i: int| 0 <= i < output.len() && is_observable_item(#[trigger] output[i])
}

/// Text that was forwarded is kept among the texts that the client was shown, unless it has no place
/// and repeats the last text without one.
pub proof fn law_forwarded_text_is_kept(log: VisibleLog, shown: VisibleText)
    ensures
        ({
            let after = log_with_forwarded(log, shown);
            let placed = shown.key.item_id is Some || shown.key.output_index is Some;
            &&& placed || log.last_unidentified != Some(shown.text) ==> after.texts == texts_with(
                log.texts,
                shown,
            )
            &&& !placed && log.last_unidentified == Some(shown.text) ==> after == log
            &&& placed ==> after.last_unidentified == log.last_unidentified
            &&& !placed ==> after.last_unidentified == Some(shown.text) && after.sources
                == log.sources
        }),
{
}

/// Text that is queued is kept among the texts that the client was shown, one after the other, and
/// nothing else is.
pub proof fn law_queued_text_is_kept(
    log: VisibleLog,
    deltas: Seq<VisibleText>,
    delta: VisibleText,
)
    ensures
        ({
            let before = log_with_queued(log, deltas);
            let after = log_with_queued(log, deltas.push(delta));
            let fresh = fresh_deltas(log, deltas);
            let all = fresh_deltas(log, deltas.push(delta));
            &&& after == before && all == fresh || after.texts == texts_with(before.texts, delta)
                && all == fresh.push(delta)
            &&& log_with_queued(log, Seq::empty()) == log
            &&& fresh_deltas(log, Seq::empty()).len() == 0
        }),
{
    assert(deltas.push(delta).drop_last() =~= deltas);
    assert(deltas.push(delta).last() == delta);
}

proof fn lemma_readable_content(
    content: Seq<Json>,
    item_id: Option<Seq<char>>,
    output_index: Option<u64>,
    count: int,
)
    requires
        0 <= count <= content.len(),
    ensures
        content_texts(content, item_id, output_index, count).len() > 0 <==> exists|i: int|
            0 <= i < count && part_text(#[trigger] content[i]) is Some,
    decreases count,
{
    if count > 0 {
        let last = count - 1;
        lemma_readable_content(content, item_id, output_index, last);
        lemma_items(content[last]);
        if exists|i: int| 0 <= i < last && part_text(#[trigger] content[i]) is Some {
            let i = choose|i: int| 0 <= i < last && part_text(#[trigger] content[i]) is Some;
            assert(0 <= i < count && part_text(content[i]) is Some);
        }
        if exists|i: int| 0 <= i < count && part_text(#[trigger] content[i]) is Some {
            let i = choose|i: int| 0 <= i < count && part_text(#[trigger] content[i]) is Some;
            if i < last {
                assert(0 <= i < last && part_text(content[i]) is Some);
            } else {
                assert(part_text(content[last]) is Some);
            }
        }
        if part_text(content[last]) is Some {
            assert(0 <= last < count && part_text(content[last]) is Some);
        }
    }
}

/// An item has texts exactly when it is a message in which the client can read something.
pub proof fn law_readable_items_have_texts(item: Json, output_index: Option<u64>)
    ensures
        item_texts(item, output_index).len() > 0 <==> shows_text(item),
{
    if let Json::Object(members) = item {
        if let Some(Json::Array(content)) = member(members, "content"@) {
            lemma_readable_content(
                content,
                text_member(item, "id"@),
                output_index,
                content.len() as int,
            );
        }
    }
}

proof fn lemma_first_item_id(texts: Seq<VisibleText>, from: int)
    requires
        0 <= from <= texts.len(),
    ensures
        match first_item_id(texts, from) {
            Some(id) => exists|i: int|
                from <= i < texts.len() && (#[trigger] texts[i]).key.item_id == Some(id),
            None => forall|i: int|
                from <= i < texts.len() ==> (#[trigger] texts[i]).key.item_id is None,
        },
    decreases texts.len() - from,
{
    if from < texts.len() {
        match texts[from].key.item_id {
            Some(id) => {
                assert(texts[from].key.item_id == Some(id));
            },
            None => {
                lemma_first_item_id(texts, from + 1);
                if let Some(id) = first_item_id(texts, from + 1) {
                    let i = choose|i: int|
                        from + 1 <= i < texts.len() && (#[trigger] texts[i]).key.item_id == Some(id);
                    assert(from <= i < texts.len() && texts[i].key.item_id == Some(id));
                }
            },
        }
    }
}

/// A message that repeats what the client was shown has the id under which it was shown, where there
/// was one, and otherwise one that is made from the id of the response.
pub proof fn law_repeated_texts_keep_their_id(
    response_id: Option<Seq<char>>,
    texts: Seq<VisibleText>,
)
    ensures
        synthetic_message(response_id, texts) matches Some(message) ==> {
            if forall|i: int| 0 <= i < texts.len() ==> (#[trigger] texts[i]).key.item_id is None {
                text_member(message, "id"@) == Some(
                    match response_id {
                        Some(id) => if id.len() > 0 {
                            "synthetic_assistant_"@ + id
                        } else {
                            "synthetic_assistant"@
                        },
                        None => "synthetic_assistant"@,
                    },
                )
            } else {
                exists|i: int|
                    0 <= i < texts.len() && (#[trigger] texts[i]).key.item_id is Some
                        && text_member(message, "id"@) == texts[i].key.item_id
            }
        },
{
    reveal_strlit("id");
    reveal_strlit("type");
    reveal_strlit("role");
    reveal_strlit("content");
    assert("id"@.len() == 2 && "type"@.len() == 4 && "role"@.len() == 4 && "content"@.len() == 7);
    lemma_first_item_id(texts, 0);
    if let Some(id) = first_item_id(texts, 0) {
        let i = choose|i: int|
            0 <= i < texts.len() && (#[trigger] texts[i]).key.item_id == Some(id);
        assert(texts[i].key.item_id is Some);
    }
}

} // verus!
