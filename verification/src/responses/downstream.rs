//! Requests from the client, and the event stream that answers them.

use crate::errors::ThreadlineError;
use crate::json::{
    array_of, array_view, child_values, field, field_is, field_of, field_text, field_text_view,
    json_array, json_field, json_text, json_view, member, object_get, object_remove, object_view,
    open_value, optional_field, optional_json, owned_text_of, refs_view, text_of, value_str, Json,
    ValueRef,
};
use crate::responses::probes::{
    lemma_mentioned_step, lemma_mentions_children, mentioned_in, mentions, probe_hits, text_shows,
    Probe,
};
use crate::text::{optional_str, optional_text, same_text};
use serde_json::Value;
use vstd::prelude::*;

verus! {

/// What kind of turn a request asks for.
#[derive(Debug, Clone, Copy, PartialEq, Eq, Structural)]
pub enum DownstreamRequestClassification {
    Normal,
    AuxiliarySummary,
}

/// What the client's interaction header says of a request.
#[derive(Debug, Clone, Copy, PartialEq, Eq, Structural)]
pub enum DownstreamInteractionType {
    Missing,
    ConversationCompaction,
    Other,
}

/// What the headers of a request say.
#[derive(Debug, Clone, Copy)]
pub struct DownstreamRequestMetadata {
    pub interaction_type: DownstreamInteractionType,
}

/// The white space that headers may hold.
pub open spec fn is_header_space(byte: u8) -> bool {
    byte == 9 || byte == 10 || byte == 12 || byte == 13 || byte == 32
}

/// `bytes` without white space at both ends.
pub open spec fn header_trimmed(bytes: Seq<u8>) -> Seq<u8>
    decreases bytes.len(),
{
    if bytes.len() > 0 && is_header_space(bytes.first()) {
        header_trimmed(bytes.drop_first())
    } else if bytes.len() > 0 && is_header_space(bytes.last()) {
        header_trimmed(bytes.drop_last())
    } else {
        bytes
    }
}

/// What an interaction header says.
pub open spec fn interaction_of(header: Option<Seq<u8>>) -> DownstreamInteractionType {
    match header {
        None => DownstreamInteractionType::Missing,
        Some(bytes) => if header_trimmed(bytes) == vstd::utf8::encode_utf8(
            "conversation-compaction"@,
        ) {
            DownstreamInteractionType::ConversationCompaction
        } else {
            DownstreamInteractionType::Other
        },
    }
}

/// The view of an optional byte slice.
pub open spec fn optional_bytes(bytes: Option<&[u8]>) -> Option<Seq<u8>> {
    match bytes {
        Some(slice) => Some(slice@),
        None => None,
    }
}

fn header_space(byte: u8) -> (space: bool)
    ensures
        space == is_header_space(byte),
{
    byte == 9 || byte == 10 || byte == 12 || byte == 13 || byte == 32
}

fn is_header_value(bytes: &[u8], expected: &str) -> (same: bool)
    ensures
        same == (header_trimmed(bytes@) == vstd::utf8::encode_utf8(expected@)),
{
    let wanted = expected.as_bytes();
    let mut start: usize = 0;
    let mut end: usize = bytes.len();
    assert(bytes@.subrange(0, end as int) =~= bytes@);
    while start < end && header_space(bytes[start])
        invariant
            start <= end <= bytes@.len(),
            header_trimmed(bytes@) == header_trimmed(bytes@.subrange(start as int, end as int)),
        decreases end - start,
    {
        assert(bytes@.subrange(start as int, end as int).drop_first() =~= bytes@.subrange(
            start + 1,
            end as int,
        ));
        start += 1;
    }
    while start < end && header_space(bytes[end - 1])
        invariant
            start <= end <= bytes@.len(),
            header_trimmed(bytes@) == header_trimmed(bytes@.subrange(start as int, end as int)),
            start < end ==> !is_header_space(bytes@[start as int]),
        decreases end - start,
    {
        assert(bytes@.subrange(start as int, end as int).drop_last() =~= bytes@.subrange(
            start as int,
            end - 1,
        ));
        end -= 1;
    }
    let ghost rest = bytes@.subrange(start as int, end as int);
    assert(header_trimmed(bytes@) == rest);
    if end - start != wanted.len() {
        return false;
    }
    let mut i: usize = 0;
    while i < wanted.len()
        invariant
            i <= wanted@.len(),
            rest.len() == wanted@.len(),
            start + rest.len() == end <= bytes@.len(),
            rest == bytes@.subrange(start as int, end as int),
            header_trimmed(bytes@) == rest,
            wanted@ == vstd::utf8::encode_utf8(expected@),
            forall|j: int| 0 <= j < i ==> rest[j] == wanted@[j],
        decreases wanted@.len() - i,
    {
        if bytes[start + i] != wanted[i] {
            assert(rest[i as int] != wanted@[i as int]);
            return false;
        }
        i += 1;
    }
    assert(rest =~= wanted@);
    true
}

impl DownstreamRequestMetadata {
    /// What the interaction header of a request says, given the first value of it.
    pub fn from_interaction_type_header_bytes(header: Option<&[u8]>) -> (metadata: Self)
        ensures
            metadata.interaction_type == interaction_of(optional_bytes(header)),
    {
        let interaction_type = match header {
            None => DownstreamInteractionType::Missing,
            Some(bytes) => if is_header_value(bytes, "conversation-compaction") {
                DownstreamInteractionType::ConversationCompaction
            } else {
                DownstreamInteractionType::Other
            },
        };
        DownstreamRequestMetadata { interaction_type }
    }

    /// What the interaction headers of a request say: the first one counts.
    pub fn from_interaction_type_headers(values: &Vec<Vec<u8>>) -> (metadata: Self)
        ensures
            metadata.interaction_type == interaction_of(
                if values@.len() == 0 {
                    None
                } else {
                    Some(values@[0]@)
                },
            ),
    {
        if values.len() == 0 {
            DownstreamRequestMetadata::from_interaction_type_header_bytes(None)
        } else {
            DownstreamRequestMetadata::from_interaction_type_header_bytes(
                Some(values[0].as_slice()),
            )
        }
    }

    pub fn interaction_type(self) -> (interaction_type: DownstreamInteractionType)
        ensures
            interaction_type == self.interaction_type,
    {
        self.interaction_type
    }
}

/// Which of the known summary phrases were seen.
#[derive(Debug, Clone, Copy)]
pub struct PhraseFlags {
    pub summary_prompt: bool,
    pub structure_instruction: bool,
    pub tool_results_instruction: bool,
    pub context_too_large: bool,
    pub summary_tags: bool,
    pub only_task: bool,
    pub history_context: bool,
    pub detailed_summary: bool,
}

/// Which of the known summary phrases a request holds: anywhere, in system or developer messages,
/// and in the user's own messages.
#[derive(Debug, Clone, Copy)]
pub struct SummaryFingerprintHits {
    pub anywhere: PhraseFlags,
    pub instruction: PhraseFlags,
    pub new_auto_user_history_hit: bool,
    pub new_auto_user_final_summary_prompt_hit: bool,
    pub summary_instruction_like_hit: bool,
}

/// What the bridge reports of how a request is routed.
#[derive(Debug, Clone)]
pub struct DownstreamRequestRoutingDiagnostics {
    pub interaction_type: DownstreamInteractionType,
    pub interaction_type_compaction_hit: bool,
    pub summary_hits: SummaryFingerprintHits,
    pub tool_choice: Option<String>,
    pub tools_count: usize,
    pub input_item_count: usize,
    pub last_input_role: Option<String>,
    pub last_input_type: Option<String>,
}

/// The contents of [`DownstreamRequestRoutingDiagnostics`].
pub struct RoutingDiagnostics {
    pub interaction_type: DownstreamInteractionType,
    pub interaction_type_compaction_hit: bool,
    pub summary_hits: SummaryFingerprintHits,
    pub tool_choice: Option<Seq<char>>,
    pub tools_count: nat,
    pub input_item_count: nat,
    pub last_input_role: Option<Seq<char>>,
    pub last_input_type: Option<Seq<char>>,
}

impl View for DownstreamRequestRoutingDiagnostics {
    type V = RoutingDiagnostics;

    open spec fn view(&self) -> RoutingDiagnostics {
        RoutingDiagnostics {
            interaction_type: self.interaction_type,
            interaction_type_compaction_hit: self.interaction_type_compaction_hit,
            summary_hits: self.summary_hits,
            tool_choice: optional_text(self.tool_choice),
            tools_count: self.tools_count as nat,
            input_item_count: self.input_item_count as nat,
            last_input_role: optional_text(self.last_input_role),
            last_input_type: optional_text(self.last_input_type),
        }
    }
}

/// A request as the bridge works with it.
#[derive(Debug, Clone)]
pub struct DownstreamResponsesRequest {
    pub previous_response_id: Option<String>,
    pub classification: DownstreamRequestClassification,
    pub routing_diagnostics: DownstreamRequestRoutingDiagnostics,
    pub payload: serde_json::Map<String, Value>,
}

/// Where a text of a request stands.
#[derive(Debug, Clone, Copy, PartialEq, Eq, Structural)]
pub enum InputSourceCategory {
    SummaryInstructionLike,
    OrdinaryUserContent,
    UnknownInputContent,
}

/// What surrounds a text of a request.
#[derive(Clone, Copy)]
pub struct SummaryObservationContext<'a> {
    pub content_item_type: Option<&'a str>,
    pub under_content_array: bool,
    pub source_category: InputSourceCategory,
}

/// The phrases that were seen: anywhere, in instructions, and in the user's own words.
#[verifier::ext_equal]
pub struct Seen {
    pub anywhere: Set<Probe>,
    pub instruction: Set<Probe>,
    pub user: Set<Probe>,
}

/// No phrase was seen.
pub open spec fn nothing_seen() -> Seen {
    Seen { anywhere: Set::empty(), instruction: Set::empty(), user: Set::empty() }
}

/// Everything that either of two parts shows.
pub open spec fn seen_both(first: Seen, second: Seen) -> Seen {
    Seen {
        anywhere: first.anywhere.union(second.anywhere),
        instruction: first.instruction.union(second.instruction),
        user: first.user.union(second.user),
    }
}

/// The phrases in a document that is, or is not, an instruction or the user's own words.
pub open spec fn seen_in(document: Json, instruction_like: bool, user_text: bool) -> Seen {
    let probes = Set::new(|probe: Probe| mentions(document, probe));
    Seen {
        anywhere: probes,
        instruction: if instruction_like {
            probes
        } else {
            Set::empty()
        },
        user: if user_text {
            probes
        } else {
            Set::empty()
        },
    }
}

/// The source that a message's role stands for.
pub open spec fn category_of_role(role: Option<Seq<char>>) -> InputSourceCategory {
    match role {
        Some(text) => if text == "system"@ || text == "developer"@ {
            InputSourceCategory::SummaryInstructionLike
        } else if text == "user"@ {
            InputSourceCategory::OrdinaryUserContent
        } else {
            InputSourceCategory::UnknownInputContent
        },
        None => InputSourceCategory::UnknownInputContent,
    }
}

/// The phrases in the first `count` content items of a message with a given role. Only
/// `input_text` items count as instructions or as the user's own words.
pub open spec fn seen_in_content(content: Seq<Json>, role: Option<Seq<char>>, count: int) -> Seen
    decreases count,
{
    if count <= 0 {
        nothing_seen()
    } else {
        let part = content[count - 1];
        let is_input_text = field_text_view(part, "type"@) == Some("input_text"@);
        seen_both(
            seen_in_content(content, role, count - 1),
            seen_in(
                part,
                is_input_text && category_of_role(role)
                    == InputSourceCategory::SummaryInstructionLike,
                is_input_text && category_of_role(role) == InputSourceCategory::OrdinaryUserContent,
            ),
        )
    }
}

/// The phrases in one item of a request's input.
pub open spec fn seen_in_item(item: Json) -> Seen {
    match json_array(json_field(item, "content"@)) {
        Some(content) if field_text_view(item, "type"@) == Some("message"@) => seen_in_content(
            content,
            field_text_view(item, "role"@),
            content.len() as int,
        ),
        _ => seen_in(item, false, false),
    }
}

/// The phrases in the first `count` items of a request's input.
pub open spec fn seen_in_items(items: Seq<Json>, count: int) -> Seen
    decreases count,
{
    if count <= 0 {
        nothing_seen()
    } else {
        seen_both(seen_in_items(items, count - 1), seen_in_item(items[count - 1]))
    }
}

/// The phrases in a request's input.
pub open spec fn seen_in_input(input: Option<Json>) -> Seen {
    match input {
        Some(Json::Array(items)) => seen_in_items(items, items.len() as int),
        Some(document) => seen_in(document, false, false),
        None => nothing_seen(),
    }
}

/// The phrases in the texts of direct `input_text` items among the first `count` items.
pub open spec fn seen_in_direct_texts(items: Seq<Json>, count: int) -> Set<Probe>
    decreases count,
{
    if count <= 0 {
        Set::empty()
    } else {
        let item = items[count - 1];
        let earlier = seen_in_direct_texts(items, count - 1);
        match field_text_view(item, "text"@) {
            Some(text) if field_text_view(item, "type"@) == Some("input_text"@) => earlier.union(
                Set::new(|probe: Probe| probe_hits(probe, text)),
            ),
            _ => earlier,
        }
    }
}

/// The phrases in the texts of an input's direct `input_text` items.
pub open spec fn seen_in_direct_input(input: Json) -> Set<Probe> {
    match input {
        Json::Array(items) => seen_in_direct_texts(items, items.len() as int),
        _ => seen_in_direct_texts(seq![input], 1),
    }
}

/// One of the phrases that make a text look like a summary instruction.
#[verifier::opaque]
pub open spec fn any_phrase(flags: PhraseFlags) -> bool {
    flags.summary_prompt
        || flags.structure_instruction
        || flags.tool_results_instruction
        || flags.context_too_large
        || flags.summary_tags
        || flags.only_task
        || flags.history_context
}

/// No phrase.
pub open spec fn no_phrases() -> PhraseFlags {
    PhraseFlags {
        summary_prompt: false,
        structure_instruction: false,
        tool_results_instruction: false,
        context_too_large: false,
        summary_tags: false,
        only_task: false,
        history_context: false,
        detailed_summary: false,
    }
}

/// The flags of a set of phrases.
#[verifier::opaque]
pub open spec fn phrases_of(probes: Set<Probe>) -> PhraseFlags {
    PhraseFlags {
        summary_prompt: probes.contains(Probe::ManualPrompt),
        structure_instruction: probes.contains(Probe::ManualStructure),
        tool_results_instruction: probes.contains(Probe::ManualToolResults),
        context_too_large: probes.contains(Probe::ContextTooLarge),
        summary_tags: probes.contains(Probe::SummaryTags),
        only_task: probes.contains(Probe::OnlyTask),
        history_context: probes.contains(Probe::HistoryContext),
        detailed_summary: probes.contains(Probe::DetailedSummary),
    }
}

/// The phrases of either.
#[verifier::opaque]
pub open spec fn phrases_of_either(first: PhraseFlags, second: PhraseFlags) -> PhraseFlags {
    PhraseFlags {
        summary_prompt: first.summary_prompt || second.summary_prompt,
        structure_instruction: first.structure_instruction || second.structure_instruction,
        tool_results_instruction: first.tool_results_instruction || second.tool_results_instruction,
        context_too_large: first.context_too_large || second.context_too_large,
        summary_tags: first.summary_tags || second.summary_tags,
        only_task: first.only_task || second.only_task,
        history_context: first.history_context || second.history_context,
        detailed_summary: first.detailed_summary || second.detailed_summary,
    }
}

/// The phrases of a text.
pub open spec fn phrases_of_text(text: Seq<char>) -> PhraseFlags {
    phrases_of(Set::new(|probe: Probe| probe_hits(probe, text)))
}

/// The summary flag tells whether any phrase was recorded from an instruction.
pub open spec fn hits_consistent(hits: SummaryFingerprintHits) -> bool {
    hits.summary_instruction_like_hit == any_phrase(hits.instruction)
}

/// The flags before anything was seen.
pub open spec fn no_hits() -> SummaryFingerprintHits {
    SummaryFingerprintHits {
        anywhere: no_phrases(),
        instruction: no_phrases(),
        new_auto_user_history_hit: false,
        new_auto_user_final_summary_prompt_hit: false,
        summary_instruction_like_hit: false,
    }
}

/// The flags after more phrases were seen.
#[verifier::opaque]
pub open spec fn hits_with(hits: SummaryFingerprintHits, seen: Seen) -> SummaryFingerprintHits {
    SummaryFingerprintHits {
        anywhere: phrases_of_either(hits.anywhere, phrases_of(seen.anywhere)),
        instruction: phrases_of_either(hits.instruction, phrases_of(seen.instruction)),
        new_auto_user_history_hit: hits.new_auto_user_history_hit || seen.user.contains(
            Probe::HistoryContext,
        ),
        new_auto_user_final_summary_prompt_hit: hits.new_auto_user_final_summary_prompt_hit
            || seen.user.contains(Probe::FinalPrompt),
        summary_instruction_like_hit: hits.summary_instruction_like_hit || any_phrase(
            phrases_of(seen.instruction),
        ),
    }
}

/// Nothing changes when nothing is seen.
proof fn lemma_hits_with_nothing(hits: SummaryFingerprintHits)
    ensures
        hits_with(hits, nothing_seen()) == hits,
{
    reveal(hits_with);
    reveal(any_phrase);
    reveal(phrases_of);
    reveal(phrases_of_either);
}

proof fn lemma_phrases_of_both(flags: PhraseFlags, first: Set<Probe>, second: Set<Probe>)
    ensures
        phrases_of_either(phrases_of_either(flags, phrases_of(first)), phrases_of(second))
            == phrases_of_either(flags, phrases_of(first.union(second))),
{
    reveal(phrases_of);
    reveal(phrases_of_either);
}

proof fn lemma_any_phrase_of_both(first: Set<Probe>, second: Set<Probe>)
    ensures
        any_phrase(phrases_of(first.union(second))) == (any_phrase(phrases_of(first))
            || any_phrase(phrases_of(second))),
{
    reveal(any_phrase);
    reveal(phrases_of);
}

proof fn lemma_any_phrase_of_either(flags: PhraseFlags, probes: Set<Probe>)
    ensures
        any_phrase(phrases_of_either(flags, phrases_of(probes))) == (any_phrase(flags)
            || any_phrase(phrases_of(probes))),
        phrases_of_either(flags, phrases_of(Set::empty())) == flags,
        !any_phrase(phrases_of(Set::empty())),
{
    reveal(any_phrase);
    reveal(phrases_of);
    reveal(phrases_of_either);
}

/// Phrases may be recorded in two steps.
proof fn lemma_hits_with_both(hits: SummaryFingerprintHits, first: Seen, second: Seen)
    ensures
        hits_with(hits_with(hits, first), second) == hits_with(hits, seen_both(first, second)),
{
    reveal(hits_with);
    lemma_phrases_of_both(hits.anywhere, first.anywhere, second.anywhere);
    lemma_phrases_of_both(hits.instruction, first.instruction, second.instruction);
    lemma_any_phrase_of_both(first.instruction, second.instruction);
}

/// The flags after a text was read that is, or is not, a summary instruction. The phrase of the
/// detailed summary is not among those that this reading looks for.
pub open spec fn hits_with_text(
    hits: SummaryFingerprintHits,
    text: Seq<char>,
    instruction_like: bool,
) -> SummaryFingerprintHits {
    let found = PhraseFlags { detailed_summary: false, ..phrases_of_text(text) };
    let instruction = if instruction_like {
        phrases_of_either(hits.instruction, found)
    } else {
        hits.instruction
    };
    SummaryFingerprintHits {
        anywhere: phrases_of_either(hits.anywhere, found),
        instruction,
        summary_instruction_like_hit: hits.summary_instruction_like_hit || (instruction_like
            && any_phrase(instruction)),
        ..hits
    }
}

/// The flags describe a request to summarise the conversation.
pub open spec fn describes_summary(hits: SummaryFingerprintHits) -> bool {
    let flags = hits.instruction;
    ||| flags.summary_prompt && (flags.structure_instruction || flags.tool_results_instruction
        || flags.history_context)
    ||| flags.context_too_large && (flags.summary_tags || flags.only_task || flags.history_context)
    ||| flags.detailed_summary && hits.new_auto_user_history_hit
        && hits.new_auto_user_final_summary_prompt_hit
}

/// The class of a request with a given input.
pub open spec fn classification_of(input: Option<Json>) -> DownstreamRequestClassification {
    if describes_summary(hits_with(no_hits(), seen_in_input(input))) {
        DownstreamRequestClassification::AuxiliarySummary
    } else {
        DownstreamRequestClassification::Normal
    }
}

/// How a value is described without showing its contents.
pub open spec fn type_label(value: Json) -> Seq<char> {
    match value {
        Json::Str(_) => "string"@,
        Json::Array(_) => "array"@,
        Json::Object(_) => match field_text_view(value, "type"@) {
            Some(label) => label,
            None => "object"@,
        },
        Json::Bool(_) => "bool"@,
        Json::Number(_) => "number"@,
        Json::Null => "null"@,
    }
}

/// How many items an input has.
pub open spec fn item_count(input: Option<Json>) -> nat {
    match input {
        Some(Json::Array(items)) => items.len(),
        Some(Json::Null) | None => 0,
        Some(_) => 1,
    }
}

/// The last item of an input: the last of a list, or the input itself.
pub open spec fn last_item(input: Option<Json>) -> Option<Json> {
    match input {
        Some(Json::Array(items)) => if items.len() > 0 {
            Some(items.last())
        } else {
            None
        },
        other => other,
    }
}

/// What the bridge reports of a request's payload.
pub open spec fn diagnostics_of(
    payload: Map<Seq<char>, Json>,
    interaction_type: DownstreamInteractionType,
) -> RoutingDiagnostics {
    let input = member(payload, "input"@);
    RoutingDiagnostics {
        interaction_type,
        interaction_type_compaction_hit: interaction_type
            == DownstreamInteractionType::ConversationCompaction,
        summary_hits: hits_with(no_hits(), seen_in_input(input)),
        tool_choice: match member(payload, "tool_choice"@) {
            Some(value) => Some(type_label(value)),
            None => None,
        },
        tools_count: match member(payload, "tools"@) {
            Some(Json::Array(items)) => items.len(),
            _ => 0,
        },
        input_item_count: item_count(input),
        last_input_role: json_text(optional_field(last_item(input), "role"@)),
        last_input_type: match last_item(input) {
            Some(value) => Some(type_label(value)),
            None => None,
        },
    }
}

/// The continuation marker of a request; the error case is a marker that is no string.
pub open spec fn previous_response_of(members: Map<Seq<char>, Json>) -> Result<
    Option<Seq<char>>,
    (),
> {
    match member(members, "previous_response_id"@) {
        Some(Json::Str(marker)) => Ok(Some(marker)),
        Some(Json::Null) | None => Ok(None),
        Some(_) => Err(()),
    }
}

/// Whether a busy session's request may be answered apart from the session: it manages its
/// context, and its own direct texts ask for a summary.
pub open spec fn is_conflict_fallback(payload: Map<Seq<char>, Json>) -> bool {
    payload.contains_key("context_management"@) && match member(payload, "input"@) {
        Some(input) => {
            let probes = seen_in_direct_input(input);
            ||| probes.contains(Probe::ManualPrompt) && (probes.contains(Probe::ManualStructure)
                || probes.contains(Probe::ManualToolResults) || probes.contains(
                Probe::HistoryContext,
            ))
            ||| probes.contains(Probe::ContextTooLarge) && (probes.contains(Probe::SummaryTags)
                || probes.contains(Probe::OnlyTask) || probes.contains(Probe::HistoryContext))
        },
        None => false,
    }
}

/// Whether a request asks for reasoning over all turns.
pub open spec fn asks_all_turns(payload: Map<Seq<char>, Json>) -> bool {
    json_text(optional_field(member(payload, "reasoning"@), "context"@)) == Some("all_turns"@)
}

impl PhraseFlags {
    fn none() -> (flags: Self)
        ensures
            flags == no_phrases(),
    {
        PhraseFlags {
            summary_prompt: false,
            structure_instruction: false,
            tool_results_instruction: false,
            context_too_large: false,
            summary_tags: false,
            only_task: false,
            history_context: false,
            detailed_summary: false,
        }
    }

    fn in_text(text: &str) -> (flags: Self)
        ensures
            flags == phrases_of_text(text@),
    {
        proof {
            reveal(phrases_of);
        }
        PhraseFlags {
            summary_prompt: text_shows(text, Probe::ManualPrompt),
            structure_instruction: text_shows(text, Probe::ManualStructure),
            tool_results_instruction: text_shows(text, Probe::ManualToolResults),
            context_too_large: text_shows(text, Probe::ContextTooLarge),
            summary_tags: text_shows(text, Probe::SummaryTags),
            only_task: text_shows(text, Probe::OnlyTask),
            history_context: text_shows(text, Probe::HistoryContext),
            detailed_summary: text_shows(text, Probe::DetailedSummary),
        }
    }

    fn add_all(&mut self, other: PhraseFlags)
        ensures
            *final(self) == phrases_of_either(*old(self), other),
    {
        proof {
            reveal(phrases_of_either);
        }
        if other.summary_prompt {
            self.summary_prompt = true;
        }
        if other.structure_instruction {
            self.structure_instruction = true;
        }
        if other.tool_results_instruction {
            self.tool_results_instruction = true;
        }
        if other.context_too_large {
            self.context_too_large = true;
        }
        if other.summary_tags {
            self.summary_tags = true;
        }
        if other.only_task {
            self.only_task = true;
        }
        if other.history_context {
            self.history_context = true;
        }
        if other.detailed_summary {
            self.detailed_summary = true;
        }
    }

    fn has_summary_phrase(&self) -> (found: bool)
        ensures
            found == any_phrase(*self),
    {
        proof {
            reveal(any_phrase);
        }
        self.summary_prompt
            || self.structure_instruction
            || self.tool_results_instruction
            || self.context_too_large
            || self.summary_tags
            || self.only_task
            || self.history_context
    }
}

impl Default for SummaryFingerprintHits {
    fn default() -> (hits: Self)
        ensures
            hits == no_hits(),
    {
        SummaryFingerprintHits {
            anywhere: PhraseFlags::none(),
            instruction: PhraseFlags::none(),
            new_auto_user_history_hit: false,
            new_auto_user_final_summary_prompt_hit: false,
            summary_instruction_like_hit: false,
        }
    }
}

impl SummaryFingerprintHits {
    /// Whether the flags describe a request to summarise the conversation.
    pub fn matches_auxiliary_summary(&self) -> (matched: bool)
        ensures
            matched == describes_summary(*self),
    {
        let flags = self.instruction;
        let manual = flags.summary_prompt && (flags.structure_instruction
            || flags.tool_results_instruction || flags.history_context);
        let auto = flags.context_too_large && (flags.summary_tags || flags.only_task
            || flags.history_context);
        let new_auto = flags.detailed_summary && self.new_auto_user_history_hit
            && self.new_auto_user_final_summary_prompt_hit;
        manual || auto || new_auto
    }

    /// Records the phrases of a text.
    pub fn record_text(&mut self, text: &str, context: SummaryObservationContext<'_>)
        requires
            hits_consistent(*old(self)),
        ensures
            hits_consistent(*final(self)),
            *final(self) == hits_with(
                *old(self),
                seen_in(Json::Str(text@), context.instruction_like(), context.user_text()),
            ),
    {
        let ghost probes = Set::new(|probe: Probe| mentions(Json::Str(text@), probe));
        let ghost before = *self;
        let found = PhraseFlags::in_text(text);
        self.anywhere.add_all(found);
        if context.is_summary_instruction_like() {
            self.instruction.add_all(found);
            if self.instruction.has_summary_phrase() {
                self.summary_instruction_like_hit = true;
            }
        }
        if context.is_user_input_text() {
            if text_shows(text, Probe::HistoryContext) {
                self.new_auto_user_history_hit = true;
            }
            if text_shows(text, Probe::FinalPrompt) {
                self.new_auto_user_final_summary_prompt_hit = true;
            }
        }
        proof {
            assert(probes =~= Set::new(|probe: Probe| probe_hits(probe, text@)));
            lemma_any_phrase_of_either(before.instruction, probes);
            reveal(hits_with);
        }
    }

    /// Records the phrases of a text that is, or is not, a summary instruction.
    pub fn record_text_with_instruction_like(&mut self, text: &str, instruction_like: bool)
        ensures
            *final(self) == hits_with_text(*old(self), text@, instruction_like),
    {
        let mut found = PhraseFlags::in_text(text);
        found.detailed_summary = false;
        self.anywhere.add_all(found);
        if instruction_like {
            self.instruction.add_all(found);
            if self.instruction.has_summary_phrase() {
                self.summary_instruction_like_hit = true;
            }
        }
    }
}

impl InputSourceCategory {
    pub fn from_role(role: Option<&str>) -> (category: Self)
        ensures
            category == category_of_role(optional_str(role)),
    {
        match role {
            Some(text) => if same_text(text, "system") || same_text(text, "developer") {
                InputSourceCategory::SummaryInstructionLike
            } else if same_text(text, "user") {
                InputSourceCategory::OrdinaryUserContent
            } else {
                InputSourceCategory::UnknownInputContent
            },
            None => InputSourceCategory::UnknownInputContent,
        }
    }

    pub fn is_summary_instruction_like(self) -> (matched: bool)
        ensures
            matched == (self == InputSourceCategory::SummaryInstructionLike),
    {
        self == InputSourceCategory::SummaryInstructionLike
    }
}

impl<'a> SummaryObservationContext<'a> {
    /// The text is content of a system or developer message.
    pub open spec fn instruction_like(self) -> bool {
        self.under_content_array && optional_str(self.content_item_type) == Some("input_text"@)
            && self.source_category == InputSourceCategory::SummaryInstructionLike
    }

    /// The text is content of a user's message.
    pub open spec fn user_text(self) -> bool {
        self.under_content_array && optional_str(self.content_item_type) == Some("input_text"@)
            && self.source_category == InputSourceCategory::OrdinaryUserContent
    }

    fn unknown() -> (context: Self)
        ensures
            !context.instruction_like(),
            !context.user_text(),
    {
        SummaryObservationContext {
            content_item_type: None,
            under_content_array: false,
            source_category: InputSourceCategory::UnknownInputContent,
        }
    }

    fn is_input_text(self) -> (matched: bool)
        ensures
            matched == (optional_str(self.content_item_type) == Some("input_text"@)),
    {
        match self.content_item_type {
            Some(text) => same_text(text, "input_text"),
            None => false,
        }
    }

    pub fn is_summary_instruction_like(self) -> (matched: bool)
        ensures
            matched == self.instruction_like(),
    {
        self.under_content_array && self.is_input_text()
            && self.source_category.is_summary_instruction_like()
    }

    pub fn is_user_input_text(self) -> (matched: bool)
        ensures
            matched == self.user_text(),
    {
        self.under_content_array && self.is_input_text() && self.source_category
            == InputSourceCategory::OrdinaryUserContent
    }
}

/// Records the phrases in all strings of a value.
fn collect_summary_fingerprints_into(
    value: &Value,
    context: SummaryObservationContext<'_>,
    fingerprints: &mut SummaryFingerprintHits,
)
    requires
        hits_consistent(*old(fingerprints)),
    ensures
        hits_consistent(*final(fingerprints)),
        *final(fingerprints) == hits_with(
            *old(fingerprints),
            seen_in(json_view(*value), context.instruction_like(), context.user_text()),
        ),
    decreases json_view(*value),
{
    if let Some(text) = value_str(value) {
        fingerprints.record_text(text, context);
        return;
    }
    let children = child_values(value);
    let ghost documents = refs_view(children@);
    let ghost before = *fingerprints;
    let ghost instruction_like = context.instruction_like();
    let ghost user_text = context.user_text();
    let mut index: usize = 0;
    proof {
        lemma_mentions_children(json_view(*value), documents);
        assert(seen_in_first(documents, 0, instruction_like, user_text) =~= nothing_seen());
        lemma_hits_with_nothing(before);
    }
    while index < children.len()
        invariant
            index <= children.len(),
            documents == refs_view(children@),
            instruction_like == context.instruction_like(),
            user_text == context.user_text(),
            forall|i: int|
                0 <= i < children@.len() ==> decreases_to!(
                    json_view(*value) => #[trigger] refs_view(children@)[i]
                ),
            hits_consistent(*fingerprints),
            *fingerprints == hits_with(
                before,
                seen_in_first(documents, index as int, instruction_like, user_text),
            ),
        decreases children.len() - index,
    {
        assert(documents[index as int] == json_view(*children@[index as int]));
        collect_summary_fingerprints_into(children[index], context, fingerprints);
        proof {
            lemma_mentioned_step(documents, index as int);
            lemma_hits_with_both(
                before,
                seen_in_first(documents, index as int, instruction_like, user_text),
                seen_in(documents[index as int], instruction_like, user_text),
            );
        }
        assert(seen_in_first(documents, index + 1, instruction_like, user_text) =~= seen_both(
            seen_in_first(documents, index as int, instruction_like, user_text),
            seen_in(documents[index as int], instruction_like, user_text),
        ));
        index = index + 1;
    }
    assert(seen_in_first(documents, documents.len() as int, instruction_like, user_text)
        =~= seen_in(json_view(*value), instruction_like, user_text));
}

/// The phrases in the first `count` of several documents.
spec fn seen_in_first(
    documents: Seq<Json>,
    count: int,
    instruction_like: bool,
    user_text: bool,
) -> Seen {
    let probes = Set::new(|probe: Probe| mentioned_in(documents, count, probe));
    Seen {
        anywhere: probes,
        instruction: if instruction_like {
            probes
        } else {
            Set::empty()
        },
        user: if user_text {
            probes
        } else {
            Set::empty()
        },
    }
}

/// Records the phrases in one item of a request's input.
fn collect_summary_fingerprints_from_input_item(
    value: &Value,
    fingerprints: &mut SummaryFingerprintHits,
)
    requires
        hits_consistent(*old(fingerprints)),
    ensures
        hits_consistent(*final(fingerprints)),
        *final(fingerprints) == hits_with(*old(fingerprints), seen_in_item(json_view(*value))),
{
    if field_is(value, "type", "message") {
        if let Some(content) = array_of(field(value, "content")) {
            let role = field_text(value, "role");
            let category = InputSourceCategory::from_role(role);
            let ghost parts = array_view(content@);
            let ghost role_text = optional_str(role);
            let ghost before = *fingerprints;
            let mut index: usize = 0;
            proof {
                lemma_hits_with_nothing(before);
            }
            while index < content.len()
                invariant
                    index <= content.len(),
                    parts == array_view(content@),
                    category == category_of_role(role_text),
                    hits_consistent(*fingerprints),
                    *fingerprints == hits_with(
                        before,
                        seen_in_content(parts, role_text, index as int),
                    ),
                decreases content.len() - index,
            {
                let part = &content[index];
                assert(parts[index as int] == json_view(*part));
                let context = SummaryObservationContext {
                    content_item_type: field_text(part, "type"),
                    under_content_array: true,
                    source_category: category,
                };
                collect_summary_fingerprints_into(part, context, fingerprints);
                proof {
                    lemma_hits_with_both(
                        before,
                        seen_in_content(parts, role_text, index as int),
                        seen_in(
                            parts[index as int],
                            context.instruction_like(),
                            context.user_text(),
                        ),
                    );
                }
                index = index + 1;
            }
            return;
        }
    }
    collect_summary_fingerprints_into(value, SummaryObservationContext::unknown(), fingerprints);
}

/// Which of the known summary phrases a request's input holds.
pub fn collect_summary_fingerprints(input: Option<&Value>) -> (fingerprints: SummaryFingerprintHits)
    ensures
        fingerprints == hits_with(no_hits(), seen_in_input(optional_json(input))),
{
    let mut fingerprints = SummaryFingerprintHits::default();
    proof {
        lemma_hits_with_nothing(no_hits());
        reveal(any_phrase);
    }
    let value = match input {
        Some(value) => value,
        None => return fingerprints,
    };
    match open_value(value) {
        ValueRef::Array(items) => {
            let ghost documents = array_view(items@);
            let mut index: usize = 0;
            while index < items.len()
                invariant
                    index <= items.len(),
                    documents == array_view(items@),
                    hits_consistent(fingerprints),
                    fingerprints == hits_with(no_hits(), seen_in_items(documents, index as int)),
                decreases items.len() - index,
            {
                assert(documents[index as int] == json_view(items@[index as int]));
                collect_summary_fingerprints_from_input_item(&items[index], &mut fingerprints);
                proof {
                    lemma_hits_with_both(
                        no_hits(),
                        seen_in_items(documents, index as int),
                        seen_in_item(documents[index as int]),
                    );
                }
                index = index + 1;
            }
        },
        _ => {
            collect_summary_fingerprints_into(
                value,
                SummaryObservationContext::unknown(),
                &mut fingerprints,
            );
        },
    }
    fingerprints
}

/// Records the phrases of a direct `input_text` item as instructions.
fn collect_conflict_fallback_summary_from_input_item(
    value: &Value,
    fingerprints: &mut SummaryFingerprintHits,
)
    ensures
        match field_text_view(json_view(*value), "text"@) {
            Some(text) if field_text_view(json_view(*value), "type"@) == Some("input_text"@) => {
                *final(fingerprints) == hits_with_text(*old(fingerprints), text, true)
            },
            _ => *final(fingerprints) == *old(fingerprints),
        },
{
    if !field_is(value, "type", "input_text") {
        return;
    }
    if let Some(text) = field_text(value, "text") {
        fingerprints.record_text_with_instruction_like(text, true);
    }
}

/// The instruction flags are exactly the given phrases, and the user flags are not set.
spec fn hits_are(hits: SummaryFingerprintHits, probes: Set<Probe>) -> bool {
    hits.instruction == (PhraseFlags { detailed_summary: false, ..phrases_of(probes) })
}

proof fn lemma_hits_are_step(hits: SummaryFingerprintHits, probes: Set<Probe>, text: Seq<char>)
    requires
        hits_are(hits, probes),
    ensures
        hits_are(
            hits_with_text(hits, text, true),
            probes.union(Set::new(|probe: Probe| probe_hits(probe, text))),
        ),
{
    reveal(phrases_of);
    reveal(phrases_of_either);
}

/// Which of the known summary phrases stand in an input's direct `input_text` items.
fn collect_conflict_fallback_summary_fingerprints(input: &Value) -> (fingerprints:
    SummaryFingerprintHits)
    ensures
        hits_are(fingerprints, seen_in_direct_input(json_view(*input))),
        !fingerprints.new_auto_user_history_hit,
{
    let mut fingerprints = SummaryFingerprintHits::default();
    proof {
        reveal(phrases_of);
    }
    match open_value(input) {
        ValueRef::Array(items) => {
            let ghost documents = array_view(items@);
            let mut index: usize = 0;
            while index < items.len()
                invariant
                    index <= items.len(),
                    documents == array_view(items@),
                    hits_are(fingerprints, seen_in_direct_texts(documents, index as int)),
                    !fingerprints.new_auto_user_history_hit,
                decreases items.len() - index,
            {
                assert(documents[index as int] == json_view(items@[index as int]));
                let ghost before = fingerprints;
                collect_conflict_fallback_summary_from_input_item(&items[index], &mut fingerprints);
                proof {
                    if let Some(text) = field_text_view(documents[index as int], "text"@) {
                        lemma_hits_are_step(
                            before,
                            seen_in_direct_texts(documents, index as int),
                            text,
                        );
                    }
                }
                index = index + 1;
            }
        },
        _ => {
            let ghost before = fingerprints;
            collect_conflict_fallback_summary_from_input_item(input, &mut fingerprints);
            proof {
                if let Some(text) = field_text_view(json_view(*input), "text"@) {
                    lemma_hits_are_step(before, Set::empty(), text);
                }
                let single = seq![json_view(*input)];
                assert(single[0] == json_view(*input));
                assert(seen_in_direct_texts(single, 0) =~= Set::empty());
                assert(seen_in_direct_texts(single, 1) == seen_in_direct_input(json_view(*input)));
            }
        },
    }
    fingerprints
}

/// Whether a busy session's request may be answered apart from the session.
pub fn looks_like_auxiliary_summary_conflict_fallback(
    payload: &serde_json::Map<String, Value>,
) -> (matched: bool)
    ensures
        matched == is_conflict_fallback(object_view(*payload)),
{
    proof {
        reveal(phrases_of);
    }
    if object_get(payload, "context_management").is_none() {
        return false;
    }
    match object_get(payload, "input") {
        Some(input) => collect_conflict_fallback_summary_fingerprints(
            input,
        ).matches_auxiliary_summary(),
        None => false,
    }
}

/// Whether a request asks for reasoning over all turns.
pub fn wants_reasoning_all_turns(payload: &serde_json::Map<String, Value>) -> (wanted: bool)
    ensures
        wanted == asks_all_turns(object_view(*payload)),
{
    match text_of(field_of(object_get(payload, "reasoning"), "context")) {
        Some(context) => same_text(context, "all_turns"),
        None => false,
    }
}

/// How a value is described without showing its contents.
pub fn safe_value_type_label(value: Option<&Value>) -> (label: Option<String>)
    ensures
        optional_text(label) == match optional_json(value) {
            Some(document) => Some(type_label(document)),
            None => None,
        },
{
    match value {
        Some(inner) => Some(
            match open_value(inner) {
                ValueRef::Str(_) => "string".to_owned(),
                ValueRef::Array(_) => "array".to_owned(),
                ValueRef::Object(_) => match field_text(inner, "type") {
                    Some(label) => label.to_owned(),
                    None => "object".to_owned(),
                },
                ValueRef::Bool(_) => "bool".to_owned(),
                ValueRef::Number => "number".to_owned(),
                ValueRef::Null => "null".to_owned(),
            },
        ),
        None => None,
    }
}

fn input_item_count(value: Option<&Value>) -> (count: usize)
    ensures
        count == item_count(optional_json(value)),
{
    match value {
        Some(inner) => match open_value(inner) {
            ValueRef::Array(items) => items.len(),
            ValueRef::Null => 0,
            _ => 1,
        },
        None => 0,
    }
}

fn last_input_item<'a>(input: Option<&'a Value>) -> (item: Option<&'a Value>)
    ensures
        optional_json(item) == last_item(optional_json(input)),
{
    match input {
        Some(value) => match open_value(value) {
            ValueRef::Array(items) => {
                if items.len() == 0 {
                    None
                } else {
                    let last = &items[items.len() - 1];
                    assert(array_view(items@).last() == json_view(*last));
                    Some(last)
                }
            },
            _ => Some(value),
        },
        None => None,
    }
}

fn last_input_role(input: Option<&Value>) -> (role: Option<String>)
    ensures
        optional_text(role) == json_text(
            optional_field(last_item(optional_json(input)), "role"@),
        ),
{
    owned_text_of(field_of(last_input_item(input), "role"))
}

fn last_input_type(input: Option<&Value>) -> (label: Option<String>)
    ensures
        optional_text(label) == match last_item(optional_json(input)) {
            Some(document) => Some(type_label(document)),
            None => None,
        },
{
    safe_value_type_label(last_input_item(input))
}

/// What the bridge reports of a request's payload.
pub fn collect_request_routing_diagnostics(
    payload: &serde_json::Map<String, Value>,
    metadata: DownstreamRequestMetadata,
) -> (diagnostics: DownstreamRequestRoutingDiagnostics)
    ensures
        diagnostics@ == diagnostics_of(object_view(*payload), metadata.interaction_type),
{
    let input = object_get(payload, "input");
    let tools_count: usize = match array_of(object_get(payload, "tools")) {
        Some(tools) => tools.len(),
        None => 0,
    };
    DownstreamRequestRoutingDiagnostics {
        interaction_type: metadata.interaction_type,
        interaction_type_compaction_hit: metadata.interaction_type
            == DownstreamInteractionType::ConversationCompaction,
        summary_hits: collect_summary_fingerprints(input),
        tool_choice: safe_value_type_label(object_get(payload, "tool_choice")),
        tools_count,
        input_item_count: input_item_count(input),
        last_input_role: last_input_role(input),
        last_input_type: last_input_type(input),
    }
}

fn classify_request(routing_diagnostics: &DownstreamRequestRoutingDiagnostics) -> (classification:
    DownstreamRequestClassification)
    ensures
        classification == (if describes_summary(routing_diagnostics.summary_hits) {
            DownstreamRequestClassification::AuxiliarySummary
        } else {
            DownstreamRequestClassification::Normal
        }),
{
    if is_auxiliary_summary_request(&routing_diagnostics.summary_hits) {
        DownstreamRequestClassification::AuxiliarySummary
    } else {
        DownstreamRequestClassification::Normal
    }
}

fn is_auxiliary_summary_request(summary_hits: &SummaryFingerprintHits) -> (matched: bool)
    ensures
        matched == describes_summary(*summary_hits),
{
    summary_hits.matches_auxiliary_summary()
}

impl DownstreamResponsesRequest {
    pub fn routing_diagnostics(&self) -> (diagnostics: &DownstreamRequestRoutingDiagnostics)
        ensures
            *diagnostics == self.routing_diagnostics,
    {
        &self.routing_diagnostics
    }
}

/// Reads a request without headers.
pub fn parse_downstream_request(payload: Value) -> (request: Result<
    DownstreamResponsesRequest,
    ThreadlineError,
>)
    ensures
        is_parsed_request(
            json_view(payload),
            DownstreamInteractionType::Missing,
            request,
        ),
{
    parse_downstream_request_with_metadata(
        payload,
        DownstreamRequestMetadata { interaction_type: DownstreamInteractionType::Missing },
    )
}

/// What reading a request gives: the body must be an object whose continuation marker, if there
/// is one, is a string. The marker is taken out of the payload.
pub open spec fn is_parsed_request(
    body: Json,
    interaction_type: DownstreamInteractionType,
    request: Result<DownstreamResponsesRequest, ThreadlineError>,
) -> bool {
    match body {
        Json::Object(members) if previous_response_of(members) is Ok => match request {
            Ok(parsed) => {
                let payload = members.remove("previous_response_id"@);
                &&& optional_text(parsed.previous_response_id) == previous_response_of(members)->Ok_0
                &&& object_view(parsed.payload) == payload
                &&& parsed.classification == classification_of(member(payload, "input"@))
                &&& parsed.routing_diagnostics@ == diagnostics_of(payload, interaction_type)
            },
            Err(_) => false,
        },
        _ => request matches Err(error) && error == ThreadlineError::InvalidResponsesRequest,
    }
}

/// Reads a request with what its headers say.
pub fn parse_downstream_request_with_metadata(
    payload: Value,
    metadata: DownstreamRequestMetadata,
) -> (request: Result<DownstreamResponsesRequest, ThreadlineError>)
    ensures
        is_parsed_request(json_view(payload), metadata.interaction_type, request),
{
    let mut members = match open_value(&payload) {
        ValueRef::Object(map) => map.clone(),
        _ => return Err(ThreadlineError::InvalidResponsesRequest),
    };
    let previous_response_id: Option<String> = match object_get(&members, "previous_response_id") {
        Some(value) => match open_value(value) {
            ValueRef::Str(marker) => Some(marker.clone()),
            ValueRef::Null => None,
            _ => return Err(ThreadlineError::InvalidResponsesRequest),
        },
        None => None,
    };
    let _ = object_remove(&mut members, "previous_response_id");
    let routing_diagnostics = collect_request_routing_diagnostics(&members, metadata);
    let classification = classify_request(&routing_diagnostics);
    assert(routing_diagnostics@.summary_hits == routing_diagnostics.summary_hits);
    Ok(
        DownstreamResponsesRequest {
            previous_response_id,
            classification,
            routing_diagnostics,
            payload: members,
        },
    )
}

/// Whether an item of a request's input is a message of the system or the developer.
pub open spec fn is_instruction_message(item: Json) -> bool {
    &&& field_text_view(item, "type"@) == Some("message"@)
    &&& category_of_role(field_text_view(item, "role"@))
        == InputSourceCategory::SummaryInstructionLike
}

/// A request whose input holds no system or developer message is never taken for a request to
/// summarise the conversation, whatever the input is and whatever the user quotes.
pub proof fn law_quotes_do_not_classify(input: Option<Json>)
    requires
        input matches Some(Json::Array(items)) ==> forall|i: int|
            0 <= i < items.len() ==> !is_instruction_message(#[trigger] items[i]),
    ensures
        classification_of(input) == DownstreamRequestClassification::Normal,
{
    if let Some(Json::Array(items)) = input {
        lemma_no_instructions(items, items.len() as int);
    }
    assert(seen_in_input(input).instruction =~= Set::empty());
    lemma_any_phrase_of_either(no_phrases(), Set::empty());
    reveal(hits_with);
}

proof fn lemma_no_instructions(items: Seq<Json>, count: int)
    requires
        0 <= count <= items.len(),
        forall|i: int| 0 <= i < items.len() ==> !is_instruction_message(#[trigger] items[i]),
    ensures
        seen_in_items(items, count).instruction =~= Set::empty(),
    decreases count,
{
    if count > 0 {
        lemma_no_instructions(items, count - 1);
        let item = items[count - 1];
        if field_text_view(item, "type"@) == Some("message"@) {
            if let Some(content) = json_array(json_field(item, "content"@)) {
                lemma_no_instructions_in_content(
                    content,
                    field_text_view(item, "role"@),
                    content.len() as int,
                );
            }
        }
    }
}

proof fn lemma_no_instructions_in_content(content: Seq<Json>, role: Option<Seq<char>>, count: int)
    requires
        0 <= count <= content.len(),
        category_of_role(role) != InputSourceCategory::SummaryInstructionLike,
    ensures
        seen_in_content(content, role, count).instruction =~= Set::empty(),
    decreases count,
{
    if count > 0 {
        lemma_no_instructions_in_content(content, role, count - 1);
    }
}

/// A request is read as it was sent. A body that is no object is refused, and so is one whose
/// continuation marker is neither a text nor null; every other body is read, with all its members
/// but the marker, which stands beside them.
pub proof fn law_requests_are_read_as_sent(
    body: Json,
    interaction_type: DownstreamInteractionType,
    request: Result<DownstreamResponsesRequest, ThreadlineError>,
    key: Seq<char>,
)
    requires
        is_parsed_request(body, interaction_type, request),
    ensures
        request is Ok <==> match body {
            Json::Object(members) => match member(members, "previous_response_id"@) {
                None | Some(Json::Null) | Some(Json::Str(_)) => true,
                _ => false,
            },
            _ => false,
        },
        request matches Err(error) ==> error == ThreadlineError::InvalidResponsesRequest,
        request matches Ok(parsed) ==> {
            let members = body->Object_0;
            &&& key != "previous_response_id"@ ==> member(object_view(parsed.payload), key)
                == member(members, key)
            &&& member(object_view(parsed.payload), "previous_response_id"@) is None
            &&& match (member(members, "previous_response_id"@), parsed.previous_response_id) {
                (Some(Json::Str(marker)), Some(read)) => read@ == marker,
                (Some(Json::Str(_)), None) => false,
                (_, read) => read is None,
            }
            &&& parsed.routing_diagnostics.interaction_type == interaction_type
        },
{
}

/// A value is described by its kind, and an object by the type that it names; what it holds is not
/// shown. The counts and the last item are those of the input.
pub proof fn law_values_are_described_by_their_kind(
    members: Map<Seq<char>, Json>,
    text: Seq<char>,
    items: Seq<Json>,
)
    ensures
        type_label(Json::Str(text)) == "string"@,
        type_label(Json::Array(items)) == "array"@,
        type_label(Json::Null) == "null"@,
        type_label(Json::Object(members)) == (match member(members, "type"@) {
            Some(Json::Str(label)) => label,
            _ => "object"@,
        }),
        item_count(Some(Json::Array(items))) == items.len(),
        item_count(Some(Json::Str(text))) == 1,
        item_count(None) == 0,
        item_count(Some(Json::Null)) == 0,
        items.len() > 0 ==> last_item(Some(Json::Array(items))) == Some(items[items.len() - 1]),
        items.len() == 0 ==> last_item(Some(Json::Array(items))) is None,
        last_item(Some(Json::Str(text))) == Some(Json::Str(text)),
{
}

} // verus!
