//! Phrases by which the bridge recognises special requests.

use crate::json::{has_member_value, lists_children, Json};
use crate::text::{ascii_lowercase, contains_text, lowercase_text, text_contains};
use vstd::prelude::*;

verus! {

pub const AUTO_CONTEXT_TOO_LARGE_PROMPT: &'static str = "The conversation has grown too large for the context window and must be compacted now";

pub const AUTO_SUMMARY_TAGS_INSTRUCTION: &'static str = "Output your summary wrapped in <summary> and </summary> tags";

pub const AUTO_ONLY_TASK_INSTRUCTION: &'static str = "Your ONLY task right now is to produce a comprehensive summary";

pub const NEW_AUTO_DETAILED_SUMMARY_INSTRUCTION: &'static str = "Your task is to create a comprehensive, detailed summary of the entire conversation that captures all essential information needed to seamlessly continue the work without any loss of context";

pub const MANUAL_SUMMARY_PROMPT: &'static str = "Summarize the conversation history so far, paying special attention to the most recent agent commands and tool results";

pub const MANUAL_STRUCTURE_INSTRUCTION: &'static str = "Structure your summary using the enhanced format provided in the system message";

pub const MANUAL_TOOL_RESULTS_INSTRUCTION: &'static str = "Include all important tool calls and their results";

pub const SIMPLE_HISTORY_CONTEXT_OBSERVED: &'static str = "The following is a compressed version of the preceeding history in the current conversation";

pub const SIMPLE_HISTORY_CONTEXT_CORRECTED: &'static str = "The following is a compressed version of the preceding history in the current conversation";

pub const SEMANTIC_SIMILARITY_PHRASE: &'static str = "clustered together based on semantic similarity";

/// What the bridge looks for in a text.
#[derive(Debug, Clone, Copy)]
pub enum Probe {
    ManualPrompt,
    ManualStructure,
    ManualToolResults,
    ContextTooLarge,
    SummaryTags,
    OnlyTask,
    HistoryContext,
    DetailedSummary,
    FinalPrompt,
    SemanticSimilarity,
    GroupIndexTag,
    GroupIndexField,
    GroupNameField,
    SummaryField,
}

/// Whether a text shows what a probe looks for.
#[verifier::opaque]
pub open spec fn probe_hits(probe: Probe, text: Seq<char>) -> bool {
    match probe {
        Probe::ManualPrompt => contains_text(text, MANUAL_SUMMARY_PROMPT@),
        Probe::ManualStructure => contains_text(text, MANUAL_STRUCTURE_INSTRUCTION@),
        Probe::ManualToolResults => contains_text(text, MANUAL_TOOL_RESULTS_INSTRUCTION@),
        Probe::ContextTooLarge => contains_text(text, AUTO_CONTEXT_TOO_LARGE_PROMPT@),
        Probe::SummaryTags => contains_text(text, AUTO_SUMMARY_TAGS_INSTRUCTION@),
        Probe::OnlyTask => contains_text(text, AUTO_ONLY_TASK_INSTRUCTION@),
        Probe::HistoryContext => contains_text(text, SIMPLE_HISTORY_CONTEXT_OBSERVED@)
            || contains_text(text, SIMPLE_HISTORY_CONTEXT_CORRECTED@),
        Probe::DetailedSummary => contains_text(text, NEW_AUTO_DETAILED_SUMMARY_INSTRUCTION@),
        Probe::FinalPrompt => contains_text(text, MANUAL_SUMMARY_PROMPT@) && contains_text(
            text,
            MANUAL_STRUCTURE_INSTRUCTION@,
        ) && contains_text(text, MANUAL_TOOL_RESULTS_INSTRUCTION@),
        Probe::SemanticSimilarity => contains_text(
            ascii_lowercase(text),
            SEMANTIC_SIMILARITY_PHRASE@,
        ),
        Probe::GroupIndexTag => contains_text(ascii_lowercase(text), "<group index="@),
        Probe::GroupIndexField => contains_text(text, "groupIndex"@),
        Probe::GroupNameField => contains_text(text, "groupName"@),
        Probe::SummaryField => contains_text(ascii_lowercase(text), "summary"@),
    }
}

/// Whether a text shows what a probe looks for.
pub fn text_shows(text: &str, probe: Probe) -> (shown: bool)
    ensures
        shown == probe_hits(probe, text@),
{
    proof {
        reveal(probe_hits);
    }
    match probe {
        Probe::ManualPrompt => text_contains(text, MANUAL_SUMMARY_PROMPT),
        Probe::ManualStructure => text_contains(text, MANUAL_STRUCTURE_INSTRUCTION),
        Probe::ManualToolResults => text_contains(text, MANUAL_TOOL_RESULTS_INSTRUCTION),
        Probe::ContextTooLarge => text_contains(text, AUTO_CONTEXT_TOO_LARGE_PROMPT),
        Probe::SummaryTags => text_contains(text, AUTO_SUMMARY_TAGS_INSTRUCTION),
        Probe::OnlyTask => text_contains(text, AUTO_ONLY_TASK_INSTRUCTION),
        Probe::HistoryContext => text_contains(text, SIMPLE_HISTORY_CONTEXT_OBSERVED)
            || text_contains(text, SIMPLE_HISTORY_CONTEXT_CORRECTED),
        Probe::DetailedSummary => text_contains(text, NEW_AUTO_DETAILED_SUMMARY_INSTRUCTION),
        Probe::FinalPrompt => text_contains(text, MANUAL_SUMMARY_PROMPT) && text_contains(
            text,
            MANUAL_STRUCTURE_INSTRUCTION,
        ) && text_contains(text, MANUAL_TOOL_RESULTS_INSTRUCTION),
        Probe::SemanticSimilarity => text_contains(
            lowercase_text(text).as_str(),
            SEMANTIC_SIMILARITY_PHRASE,
        ),
        Probe::GroupIndexTag => text_contains(lowercase_text(text).as_str(), "<group index="),
        Probe::GroupIndexField => text_contains(text, "groupIndex"),
        Probe::GroupNameField => text_contains(text, "groupName"),
        Probe::SummaryField => text_contains(lowercase_text(text).as_str(), "summary"),
    }
}

/// Whether a string anywhere in a document shows what a probe looks for.
pub open spec fn mentions(document: Json, probe: Probe) -> bool
    decreases document,
{
    match document {
        Json::Str(text) => probe_hits(probe, text),
        Json::Array(items) => exists|i: int|
            0 <= i < items.len() && mentions(#[trigger] items[i], probe),
        Json::Object(members) => exists|key: Seq<char>| #[trigger]
            members.contains_key(key) && mentions(members[key], probe),
        _ => false,
    }
}

/// Whether one of the first `count` documents shows what a probe looks for.
pub open spec fn mentioned_in(documents: Seq<Json>, count: int, probe: Probe) -> bool {
    exists|i: int| 0 <= i < count && mentions(#[trigger] documents[i], probe)
}

/// Looking at one more document.
pub(crate) proof fn lemma_mentioned_step(documents: Seq<Json>, count: int)
    requires
        0 <= count < documents.len(),
    ensures
        forall|probe: Probe| #[trigger]
            mentioned_in(documents, count + 1, probe) == (mentioned_in(documents, count, probe)
                || mentions(documents[count], probe)),
{
    assert forall|probe: Probe| #[trigger]
        mentioned_in(documents, count + 1, probe) == (mentioned_in(documents, count, probe)
            || mentions(documents[count], probe)) by {
        if mentions(documents[count], probe) {
            assert(0 <= count < count + 1 && mentions(documents[count], probe));
        }
        if mentioned_in(documents, count, probe) {
            let i = choose|i: int| 0 <= i < count && mentions(#[trigger] documents[i], probe);
            assert(0 <= i < count + 1 && mentions(documents[i], probe));
        }
    }
}

/// What a document mentions is what its children mention, or what it says itself.
pub(crate) proof fn lemma_mentions_children(document: Json, children: Seq<Json>)
    requires
        lists_children(document, children),
        !(document is Str),
    ensures
        forall|probe: Probe| #[trigger]
            mentions(document, probe) == mentioned_in(children, children.len() as int, probe),
{
    assert forall|probe: Probe| #[trigger]
        mentions(document, probe) == mentioned_in(children, children.len() as int, probe) by {
        match document {
            Json::Array(items) => {},
            Json::Object(members) => {
                if mentions(document, probe) {
                    let key = choose|key: Seq<char>| #[trigger]
                        members.contains_key(key) && mentions(members[key], probe);
                    assert(children.contains(members[key]));
                    let i = choose|i: int| 0 <= i < children.len() && children[i] == members[key];
                    assert(mentions(children[i], probe));
                }
                if mentioned_in(children, children.len() as int, probe) {
                    let i = choose|i: int|
                        0 <= i < children.len() && mentions(#[trigger] children[i], probe);
                    assert(has_member_value(members, children[i]));
                    let key = choose|key: Seq<char>| #[trigger]
                        members.contains_key(key) && members[key] == children[i];
                    assert(members.contains_key(key) && mentions(members[key], probe));
                }
            },
            _ => {},
        }
    }
}

} // verus!
