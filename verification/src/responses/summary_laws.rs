//! What holds of every request that asks for a summary of its conversation.

use crate::json::{member, Json};
use crate::responses::completion_laws::text_member;
use crate::responses::downstream::{
    category_of_role, classification_of, header_trimmed, hits_with, interaction_of,
    is_conflict_fallback, phrases_of, phrases_of_either, seen_in_content, seen_in_direct_input,
    seen_in_direct_texts, seen_in_input, seen_in_item, seen_in_items, DownstreamInteractionType,
    DownstreamRequestClassification, InputSourceCategory,
};
use crate::responses::probes::{mentions, probe_hits, Probe};
use crate::responses::virtual_tools::{
    detection_with, is_summarizer_request, no_detection, request_probes,
};
use crate::text::{ascii_lowercase, contains_text};
use vstd::prelude::*;
use vstd::utf8::encode_utf8;

verus! {

/// A phrase is found wherever it stands: in a text, or in any text of a list or an object, at
/// whatever depth.
pub proof fn law_phrases_are_found_at_any_depth(document: Json, probe: Probe)
    ensures
        mentions(document, probe) <==> match document {
            Json::Str(text) => probe_hits(probe, text),
            Json::Array(items) => exists|i: int|
                0 <= i < items.len() && mentions(#[trigger] items[i], probe),
            Json::Object(members) => exists|key: Seq<char>| #[trigger]
                members.contains_key(key) && mentions(members[key], probe),
            _ => false,
        },
{
}

/// Whether a part of a message is a text of its author in which a phrase stands.
pub open spec fn part_says(item: Json, part: int, probe: Probe) -> bool {
    &&& text_member(item, "type"@) == Some("message"@)
    &&& item matches Json::Object(members) && (member(members, "content"@) matches Some(
        Json::Array(content),
    ) && {
        &&& 0 <= part < content.len()
        &&& text_member(content[part], "type"@) == Some("input_text"@)
        &&& mentions(content[part], probe)
    })
}

/// Whether an item is a message of the system or the developer in which a phrase stands.
pub open spec fn instruction_says(item: Json, probe: Probe) -> bool {
    &&& text_member(item, "role"@) == Some("system"@) || text_member(item, "role"@) == Some(
        "developer"@,
    )
    &&& exists|part: int| part_says(item, part, probe)
}

/// Whether an item is a message of the user in which a phrase stands.
pub open spec fn user_says(item: Json, probe: Probe) -> bool {
    &&& text_member(item, "role"@) == Some("user"@)
    &&& exists|part: int| part_says(item, part, probe)
}

/// Whether the instructions of a conversation hold a phrase.
pub open spec fn instructions_say(input: Option<Json>, probe: Probe) -> bool {
    input matches Some(Json::Array(items)) && exists|i: int|
        0 <= i < items.len() && instruction_says(#[trigger] items[i], probe)
}

/// Whether what the user said holds a phrase.
pub open spec fn users_say(input: Option<Json>, probe: Probe) -> bool {
    input matches Some(Json::Array(items)) && exists|i: int|
        0 <= i < items.len() && user_says(#[trigger] items[i], probe)
}

proof fn lemma_roles(role: Option<Seq<char>>)
    ensures
        category_of_role(role) == InputSourceCategory::SummaryInstructionLike <==> (role == Some(
            "system"@,
        ) || role == Some("developer"@)),
        category_of_role(role) == InputSourceCategory::OrdinaryUserContent <==> role == Some("user"@),
{
    reveal_strlit("system");
    reveal_strlit("developer");
    reveal_strlit("user");
    assert("system"@.len() == 6 && "developer"@.len() == 9 && "user"@.len() == 4);
}

spec fn texts_say(content: Seq<Json>, count: int, probe: Probe) -> bool {
    exists|k: int|
        0 <= k < count && text_member(#[trigger] content[k], "type"@) == Some("input_text"@)
            && mentions(content[k], probe)
}

proof fn lemma_content(content: Seq<Json>, role: Option<Seq<char>>, count: int, probe: Probe)
    requires
        0 <= count <= content.len(),
    ensures
        seen_in_content(content, role, count).instruction.contains(probe) <==> (category_of_role(
            role,
        ) == InputSourceCategory::SummaryInstructionLike && texts_say(content, count, probe)),
        seen_in_content(content, role, count).user.contains(probe) <==> (category_of_role(role)
            == InputSourceCategory::OrdinaryUserContent && texts_say(content, count, probe)),
    decreases count,
{
    if count > 0 {
        lemma_content(content, role, count - 1, probe);
        let part = content[count - 1];
        let said = text_member(part, "type"@) == Some("input_text"@) && mentions(part, probe);
        if texts_say(content, count, probe) && !said {
            let k = choose|k: int|
                0 <= k < count && text_member(#[trigger] content[k], "type"@) == Some("input_text"@)
                    && mentions(content[k], probe);
            assert(text_member(content[k], "type"@) == Some("input_text"@));
            assert(texts_say(content, count - 1, probe));
        }
        if texts_say(content, count - 1, probe) {
            let k = choose|k: int|
                0 <= k < count - 1 && text_member(#[trigger] content[k], "type"@) == Some(
                    "input_text"@,
                ) && mentions(content[k], probe);
            assert(text_member(content[k], "type"@) == Some("input_text"@));
            assert(texts_say(content, count, probe));
        }
        if said {
            assert(text_member(content[count - 1], "type"@) == Some("input_text"@));
            assert(texts_say(content, count, probe));
        }
    }
}

proof fn lemma_item(item: Json, probe: Probe)
    ensures
        seen_in_item(item).instruction.contains(probe) <==> instruction_says(item, probe),
        seen_in_item(item).user.contains(probe) <==> user_says(item, probe),
{
    lemma_roles(text_member(item, "role"@));
    if let Json::Object(members) = item {
        if let Some(Json::Array(content)) = member(members, "content"@) {
            let n = content.len() as int;
            lemma_content(content, text_member(item, "role"@), n, probe);
            if text_member(item, "type"@) == Some("message"@) {
                if texts_say(content, n, probe) {
                    let k = choose|k: int|
                        0 <= k < n && text_member(#[trigger] content[k], "type"@) == Some(
                            "input_text"@,
                        ) && mentions(content[k], probe);
                    assert(part_says(item, k, probe));
                }
                if exists|part: int| part_says(item, part, probe) {
                    let part = choose|part: int| part_says(item, part, probe);
                    assert(text_member(content[part], "type"@) == Some("input_text"@));
                    assert(texts_say(content, n, probe));
                }
            }
        }
    }
}

proof fn lemma_items(items: Seq<Json>, count: int, probe: Probe)
    requires
        0 <= count <= items.len(),
    ensures
        seen_in_items(items, count).instruction.contains(probe) <==> exists|i: int|
            0 <= i < count && instruction_says(#[trigger] items[i], probe),
        seen_in_items(items, count).user.contains(probe) <==> exists|i: int|
            0 <= i < count && user_says(#[trigger] items[i], probe),
    decreases count,
{
    if count > 0 {
        lemma_items(items, count - 1, probe);
        lemma_item(items[count - 1], probe);
        let last = count - 1;
        if exists|i: int| 0 <= i < last && instruction_says(#[trigger] items[i], probe) {
            let i = choose|i: int| 0 <= i < last && instruction_says(#[trigger] items[i], probe);
            assert(0 <= i < count && instruction_says(items[i], probe));
        }
        if exists|i: int| 0 <= i < last && user_says(#[trigger] items[i], probe) {
            let i = choose|i: int| 0 <= i < last && user_says(#[trigger] items[i], probe);
            assert(0 <= i < count && user_says(items[i], probe));
        }
        if exists|i: int| 0 <= i < count && instruction_says(#[trigger] items[i], probe) {
            let i = choose|i: int| 0 <= i < count && instruction_says(#[trigger] items[i], probe);
            if i < last {
                assert(0 <= i < last && instruction_says(items[i], probe));
            }
        }
        if exists|i: int| 0 <= i < count && user_says(#[trigger] items[i], probe) {
            let i = choose|i: int| 0 <= i < count && user_says(#[trigger] items[i], probe);
            if i < last {
                assert(0 <= i < last && user_says(items[i], probe));
            }
        }
    }
}

proof fn lemma_input(input: Option<Json>, probe: Probe)
    ensures
        seen_in_input(input).instruction.contains(probe) <==> instructions_say(input, probe),
        seen_in_input(input).user.contains(probe) <==> users_say(input, probe),
{
    if let Some(Json::Array(items)) = input {
        lemma_items(items, items.len() as int, probe);
    }
}

/// A request is taken for a summary exactly when its instructions ask for one: with the prompt for a
/// summary and one of the phrases that go with it; with the prompt for a context that has grown too
/// large and one of those that go with that; or with the task of a detailed summary, where what the
/// user said holds both a history and the final prompt. What is said elsewhere does not count.
pub proof fn law_summaries_are_told_by_their_instructions(input: Option<Json>)
    ensures
        classification_of(input) == DownstreamRequestClassification::AuxiliarySummary <==> {
            ||| instructions_say(input, Probe::ManualPrompt) && (instructions_say(
                input,
                Probe::ManualStructure,
            ) || instructions_say(input, Probe::ManualToolResults) || instructions_say(
                input,
                Probe::HistoryContext,
            ))
            ||| instructions_say(input, Probe::ContextTooLarge) && (instructions_say(
                input,
                Probe::SummaryTags,
            ) || instructions_say(input, Probe::OnlyTask) || instructions_say(
                input,
                Probe::HistoryContext,
            ))
            ||| instructions_say(input, Probe::DetailedSummary) && users_say(
                input,
                Probe::HistoryContext,
            ) && users_say(input, Probe::FinalPrompt)
        },
        classification_of(input) != DownstreamRequestClassification::AuxiliarySummary
            ==> classification_of(input) == DownstreamRequestClassification::Normal,
{
    reveal(hits_with);
    reveal(phrases_of);
    reveal(phrases_of_either);
    lemma_input(input, Probe::ManualPrompt);
    lemma_input(input, Probe::ManualStructure);
    lemma_input(input, Probe::ManualToolResults);
    lemma_input(input, Probe::HistoryContext);
    lemma_input(input, Probe::ContextTooLarge);
    lemma_input(input, Probe::SummaryTags);
    lemma_input(input, Probe::OnlyTask);
    lemma_input(input, Probe::DetailedSummary);
    lemma_input(input, Probe::FinalPrompt);
}

/// The phrases themselves, letter for letter where case counts.
pub proof fn law_phrases_are_found_by_their_words(text: Seq<char>)
    ensures
        probe_hits(Probe::ManualPrompt, text) <==> contains_text(
            text,
            "Summarize the conversation history so far, paying special attention to the most recent agent commands and tool results"@,
        ),
        probe_hits(Probe::ManualStructure, text) <==> contains_text(
            text,
            "Structure your summary using the enhanced format provided in the system message"@,
        ),
        probe_hits(Probe::ManualToolResults, text) <==> contains_text(
            text,
            "Include all important tool calls and their results"@,
        ),
        probe_hits(Probe::ContextTooLarge, text) <==> contains_text(
            text,
            "The conversation has grown too large for the context window and must be compacted now"@,
        ),
        probe_hits(Probe::SummaryTags, text) <==> contains_text(
            text,
            "Output your summary wrapped in <summary> and </summary> tags"@,
        ),
        probe_hits(Probe::OnlyTask, text) <==> contains_text(
            text,
            "Your ONLY task right now is to produce a comprehensive summary"@,
        ),
        probe_hits(Probe::HistoryContext, text) <==> (contains_text(
            text,
            "The following is a compressed version of the preceeding history in the current conversation"@,
        ) || contains_text(
            text,
            "The following is a compressed version of the preceding history in the current conversation"@,
        )),
        probe_hits(Probe::FinalPrompt, text) <==> (probe_hits(Probe::ManualPrompt, text)
            && probe_hits(Probe::ManualStructure, text) && probe_hits(
            Probe::ManualToolResults,
            text,
        )),
        probe_hits(Probe::SemanticSimilarity, text) <==> contains_text(
            ascii_lowercase(text),
            "clustered together based on semantic similarity"@,
        ),
        probe_hits(Probe::GroupIndexTag, text) <==> contains_text(
            ascii_lowercase(text),
            "<group index="@,
        ),
        probe_hits(Probe::GroupIndexField, text) <==> contains_text(text, "groupIndex"@),
        probe_hits(Probe::GroupNameField, text) <==> contains_text(text, "groupName"@),
        probe_hits(Probe::SummaryField, text) <==> contains_text(ascii_lowercase(text), "summary"@),
{
    reveal(probe_hits);
}

/// Whether a part of an input that is not wrapped in a message is a text in which a phrase stands.
pub open spec fn direct_text_says(item: Json, probe: Probe) -> bool {
    &&& text_member(item, "type"@) == Some("input_text"@)
    &&& text_member(item, "text"@) matches Some(text) && probe_hits(probe, text)
}

/// Whether the texts of an input that are not wrapped in messages hold a phrase.
pub open spec fn direct_texts_say(input: Json, probe: Probe) -> bool {
    match input {
        Json::Array(items) => exists|i: int|
            0 <= i < items.len() && direct_text_says(#[trigger] items[i], probe),
        _ => direct_text_says(input, probe),
    }
}

proof fn lemma_direct_texts(items: Seq<Json>, count: int, probe: Probe)
    requires
        0 <= count <= items.len(),
    ensures
        seen_in_direct_texts(items, count).contains(probe) <==> exists|i: int|
            0 <= i < count && direct_text_says(#[trigger] items[i], probe),
    decreases count,
{
    if count > 0 {
        let last = count - 1;
        lemma_direct_texts(items, last, probe);
        if exists|i: int| 0 <= i < last && direct_text_says(#[trigger] items[i], probe) {
            let i = choose|i: int| 0 <= i < last && direct_text_says(#[trigger] items[i], probe);
            assert(0 <= i < count && direct_text_says(items[i], probe));
        }
        if exists|i: int| 0 <= i < count && direct_text_says(#[trigger] items[i], probe) {
            let i = choose|i: int| 0 <= i < count && direct_text_says(#[trigger] items[i], probe);
            if i < last {
                assert(0 <= i < last && direct_text_says(items[i], probe));
            }
        }
        if direct_text_says(items[last], probe) {
            assert(0 <= last < count && direct_text_says(items[last], probe));
        }
    }
}

proof fn lemma_direct_input(input: Json, probe: Probe)
    ensures
        seen_in_direct_input(input).contains(probe) <==> direct_texts_say(input, probe),
{
    match input {
        Json::Array(items) => lemma_direct_texts(items, items.len() as int, probe),
        _ => {
            lemma_direct_texts(seq![input], 1, probe);
            if direct_text_says(input, probe) {
                assert(direct_text_says(seq![input][0], probe));
            }
        },
    }
}

/// A request for a session that is in use may go around it only with context management in it and an
/// input whose own texts ask for a summary.
pub proof fn law_conflicts_are_avoided_for_summaries_only(payload: Map<Seq<char>, Json>)
    ensures
        is_conflict_fallback(payload) <==> {
            &&& payload.contains_key("context_management"@)
            &&& member(payload, "input"@) matches Some(input) && {
                ||| direct_texts_say(input, Probe::ManualPrompt) && (direct_texts_say(
                    input,
                    Probe::ManualStructure,
                ) || direct_texts_say(input, Probe::ManualToolResults) || direct_texts_say(
                    input,
                    Probe::HistoryContext,
                ))
                ||| direct_texts_say(input, Probe::ContextTooLarge) && (direct_texts_say(
                    input,
                    Probe::SummaryTags,
                ) || direct_texts_say(input, Probe::OnlyTask) || direct_texts_say(
                    input,
                    Probe::HistoryContext,
                ))
            }
        },
{
    if let Some(input) = member(payload, "input"@) {
        lemma_direct_input(input, Probe::ManualPrompt);
        lemma_direct_input(input, Probe::ManualStructure);
        lemma_direct_input(input, Probe::ManualToolResults);
        lemma_direct_input(input, Probe::HistoryContext);
        lemma_direct_input(input, Probe::ContextTooLarge);
        lemma_direct_input(input, Probe::SummaryTags);
        lemma_direct_input(input, Probe::OnlyTask);
    }
}

/// Whether a request says something, in its input or in its instructions.
pub open spec fn request_says(request: Map<Seq<char>, Json>, probe: Probe) -> bool {
    ||| member(request, "input"@) matches Some(input) && mentions(input, probe)
    ||| member(request, "instructions"@) matches Some(Json::Str(text)) && probe_hits(probe, text)
}

/// A request is taken for one that summarizes groups of tools exactly when it says all that such a
/// request says.
pub proof fn law_tool_summaries_are_told_by_all_their_marks(request: Map<Seq<char>, Json>)
    ensures
        is_summarizer_request(detection_with(no_detection(), request_probes(request))) <==> (
        request_says(request, Probe::SemanticSimilarity) && request_says(
            request,
            Probe::GroupIndexTag,
        ) && request_says(request, Probe::GroupIndexField) && request_says(
            request,
            Probe::GroupNameField,
        ) && request_says(request, Probe::SummaryField)),
{
}

/// A header names a compaction exactly when it says so, with nothing but white space around it; only
/// a header that is missing counts as missing.
pub proof fn law_compactions_are_named_by_their_header(header: Seq<u8>, before: u8, after: u8)
    requires
        is_space(before),
        is_space(after),
    ensures
        interaction_of(None) == DownstreamInteractionType::Missing,
        interaction_of(Some(header)) != DownstreamInteractionType::Missing,
        interaction_of(Some(encode_utf8("conversation-compaction"@)))
            == DownstreamInteractionType::ConversationCompaction,
        interaction_of(Some(seq![before] + header)) == interaction_of(Some(header)),
        interaction_of(Some(header.push(after))) == interaction_of(Some(header)),
        header.len() > 0 && !is_space(header.first()) && !is_space(header.last()) && header
            != encode_utf8("conversation-compaction"@) ==> interaction_of(Some(header))
            == DownstreamInteractionType::Other,
{
    let named = encode_utf8("conversation-compaction"@);
    lemma_named_header();
    let fronted = seq![before] + header;
    assert(fronted.drop_first() =~= header);
    assert(fronted.first() == before);
    lemma_trimmed_back(header, after);
}

/// Whether a byte is white space in a header.
pub open spec fn is_space(byte: u8) -> bool {
    byte == 9 || byte == 10 || byte == 12 || byte == 13 || byte == 32
}

proof fn lemma_trimmed_back(header: Seq<u8>, after: u8)
    requires
        is_space(after),
    ensures
        header_trimmed(header.push(after)) == header_trimmed(header),
    decreases header.len(),
{
    let longer = header.push(after);
    if header.len() == 0 {
        assert(longer.drop_first() =~= header);
    } else if is_space(header.first()) {
        assert(longer.drop_first() =~= header.drop_first().push(after));
        lemma_trimmed_back(header.drop_first(), after);
    } else {
        assert(longer.first() == header.first());
        assert(longer.drop_last() =~= header);
    }
}

proof fn lemma_named_header()
    ensures
        header_trimmed(encode_utf8("conversation-compaction"@)) == encode_utf8(
            "conversation-compaction"@,
        ),
{
    let named = "conversation-compaction"@;
    reveal_strlit("conversation-compaction");
    assert(named.len() == 23);
    vstd::utf8::is_ascii_chars_encode_utf8(named);
}

} // verus!
