//! Requests of the editor to summarise groups of virtual tools, and the instruction that makes
//! the answers readable for it.

use crate::json::{
    child_values, json_text, json_view, member, object_get, object_insert, object_view, open_value,
    refs_view, text_of, text_value, value_str, Json, ValueRef,
};
use crate::responses::probes::{
    lemma_mentioned_step, lemma_mentions_children, mentioned_in, mentions, probe_hits, text_shows,
    Probe,
};
use crate::text::{contains_text, text_contains};
use serde_json::Value;
use vstd::prelude::*;

verus! {

/// What the model is told so that the editor can read its summary.
pub const VIRTUAL_TOOL_SUMMARIZER_COMPATIBILITY_INSTRUCTION: &'static str = "Compatibility requirement for VS Code Copilot virtual tool summarization:\nReturn the JSON array inside a Markdown fenced code block using ```json.\nDo not include any text before or after the code block.\nThe fenced code block content must be a valid JSON array matching the requested schema.";

/// Which marks of a virtual tool summary request were found.
#[derive(Debug, Clone, Copy, PartialEq, Eq, Structural)]
pub struct VirtualToolSummarizerDetection {
    pub semantic_similarity_hit: bool,
    pub group_index_tag_hit: bool,
    pub group_index_field_hit: bool,
    pub group_name_field_hit: bool,
    pub summary_field_hit: bool,
}

/// What became of the instructions of a request.
#[derive(Debug, Clone, Copy, PartialEq, Eq, Structural)]
pub enum VirtualToolSummarizerInstructionMutation {
    Appended,
    Inserted,
    AlreadyPresent,
    SkippedNonString,
}

/// No mark.
pub open spec fn no_detection() -> VirtualToolSummarizerDetection {
    VirtualToolSummarizerDetection {
        semantic_similarity_hit: false,
        group_index_tag_hit: false,
        group_index_field_hit: false,
        group_name_field_hit: false,
        summary_field_hit: false,
    }
}

/// The marks found before, and those in a set of probes.
pub open spec fn detection_with(
    detection: VirtualToolSummarizerDetection,
    probes: Set<Probe>,
) -> VirtualToolSummarizerDetection {
    VirtualToolSummarizerDetection {
        semantic_similarity_hit: detection.semantic_similarity_hit || probes.contains(
            Probe::SemanticSimilarity,
        ),
        group_index_tag_hit: detection.group_index_tag_hit || probes.contains(
            Probe::GroupIndexTag,
        ),
        group_index_field_hit: detection.group_index_field_hit || probes.contains(
            Probe::GroupIndexField,
        ),
        group_name_field_hit: detection.group_name_field_hit || probes.contains(
            Probe::GroupNameField,
        ),
        summary_field_hit: detection.summary_field_hit || probes.contains(Probe::SummaryField),
    }
}

/// The probes that a request's input, or its instructions, show.
pub open spec fn request_probes(request: Map<Seq<char>, Json>) -> Set<Probe> {
    Set::new(
        |probe: Probe|
            {
                ||| member(request, "input"@) matches Some(input) && mentions(input, probe)
                ||| json_text(member(request, "instructions"@)) matches Some(text) && probe_hits(
                    probe,
                    text,
                )
            },
    )
}

/// The number of marks.
pub open spec fn mark_count(detection: VirtualToolSummarizerDetection) -> int {
    (if detection.semantic_similarity_hit { 1int } else { 0 })
        + (if detection.group_index_tag_hit { 1int } else { 0 })
        + (if detection.group_index_field_hit { 1int } else { 0 })
        + (if detection.group_name_field_hit { 1int } else { 0 })
        + (if detection.summary_field_hit { 1int } else { 0 })
}

/// All marks were found.
pub open spec fn is_summarizer_request(detection: VirtualToolSummarizerDetection) -> bool {
    detection.semantic_similarity_hit && detection.group_index_tag_hit
        && detection.group_index_field_hit && detection.group_name_field_hit
        && detection.summary_field_hit
}

/// What is to be done with the instructions of a request.
pub open spec fn instruction_mutation(
    request: Map<Seq<char>, Json>,
) -> VirtualToolSummarizerInstructionMutation {
    match member(request, "instructions"@) {
        Some(Json::Str(text)) => if contains_text(
            text,
            VIRTUAL_TOOL_SUMMARIZER_COMPATIBILITY_INSTRUCTION@,
        ) {
            VirtualToolSummarizerInstructionMutation::AlreadyPresent
        } else {
            VirtualToolSummarizerInstructionMutation::Appended
        },
        Some(Json::Null) | None => VirtualToolSummarizerInstructionMutation::Inserted,
        Some(_) => VirtualToolSummarizerInstructionMutation::SkippedNonString,
    }
}

/// A request with the instruction: appended to a text that lacks it, set where there is none, and
/// left out where the instructions are no text.
pub open spec fn with_summarizer_instruction(request: Map<Seq<char>, Json>) -> Map<
    Seq<char>,
    Json,
> {
    let instruction = VIRTUAL_TOOL_SUMMARIZER_COMPATIBILITY_INSTRUCTION@;
    match (instruction_mutation(request), member(request, "instructions"@)) {
        (VirtualToolSummarizerInstructionMutation::Appended, Some(Json::Str(text))) => {
            request.insert("instructions"@, Json::Str(text + "\n\n"@ + instruction))
        },
        (VirtualToolSummarizerInstructionMutation::Inserted, _) => request.insert(
            "instructions"@,
            Json::Str(instruction),
        ),
        _ => request,
    }
}

/// A utility request as it is sent on: with the instruction when all marks were found.
pub open spec fn with_summarizer_support(request: Map<Seq<char>, Json>) -> Map<Seq<char>, Json> {
    if is_summarizer_request(detection_with(no_detection(), request_probes(request))) {
        with_summarizer_instruction(request)
    } else {
        request
    }
}

impl Default for VirtualToolSummarizerDetection {
    fn default() -> (detection: Self)
        ensures
            detection == no_detection(),
    {
        VirtualToolSummarizerDetection {
            semantic_similarity_hit: false,
            group_index_tag_hit: false,
            group_index_field_hit: false,
            group_name_field_hit: false,
            summary_field_hit: false,
        }
    }
}

impl VirtualToolSummarizerDetection {
    /// Whether all marks were found.
    pub fn is_match(self) -> (matched: bool)
        ensures
            matched == is_summarizer_request(self),
    {
        self.required_hit_count() == 5
    }

    /// The number of marks.
    pub fn required_hit_count(self) -> (count: usize)
        ensures
            count == mark_count(self),
    {
        let mut count: usize = 0;
        if self.semantic_similarity_hit {
            count = count + 1;
        }
        if self.group_index_tag_hit {
            count = count + 1;
        }
        if self.group_index_field_hit {
            count = count + 1;
        }
        if self.group_name_field_hit {
            count = count + 1;
        }
        if self.summary_field_hit {
            count = count + 1;
        }
        count
    }
}

/// Adds the marks of a text.
fn update_detection(detection: &mut VirtualToolSummarizerDetection, text: &str)
    ensures
        *final(detection) == detection_with(
            *old(detection),
            Set::new(|probe: Probe| probe_hits(probe, text@)),
        ),
{
    if text_shows(text, Probe::SemanticSimilarity) {
        detection.semantic_similarity_hit = true;
    }
    if text_shows(text, Probe::GroupIndexTag) {
        detection.group_index_tag_hit = true;
    }
    if text_shows(text, Probe::GroupIndexField) {
        detection.group_index_field_hit = true;
    }
    if text_shows(text, Probe::GroupNameField) {
        detection.group_name_field_hit = true;
    }
    if text_shows(text, Probe::SummaryField) {
        detection.summary_field_hit = true;
    }
}

/// Adds the marks of all strings of a value.
fn visit_input_strings(value: &Value, detection: &mut VirtualToolSummarizerDetection)
    ensures
        *final(detection) == detection_with(
            *old(detection),
            Set::new(|probe: Probe| mentions(json_view(*value), probe)),
        ),
    decreases json_view(*value),
{
    let ghost document = json_view(*value);
    if let Some(text) = value_str(value) {
        update_detection(detection, text);
        assert(Set::new(|probe: Probe| mentions(document, probe)) =~= Set::new(
            |probe: Probe| probe_hits(probe, text@),
        ));
        return;
    }
    let children = child_values(value);
    let ghost documents = refs_view(children@);
    let ghost before = *detection;
    let mut index: usize = 0;
    while index < children.len()
        invariant
            index <= children.len(),
            documents == refs_view(children@),
            forall|i: int|
                0 <= i < children@.len() ==> decreases_to!(
                    json_view(*value) => #[trigger] refs_view(children@)[i]
                ),
            *detection == detection_with(
                before,
                Set::new(|probe: Probe| mentioned_in(documents, index as int, probe)),
            ),
        decreases children.len() - index,
    {
        assert(documents[index as int] == json_view(*children@[index as int]));
        visit_input_strings(children[index], detection);
        proof {
            lemma_mentioned_step(documents, index as int);
        }
        index = index + 1;
    }
    proof {
        lemma_mentions_children(document, documents);
        assert(Set::new(|probe: Probe| mentions(document, probe)) =~= Set::new(
            |probe: Probe| mentioned_in(documents, documents.len() as int, probe),
        ));
    }
}

/// Which marks of a virtual tool summary request a request shows.
pub fn detect_virtual_tool_summarizer_request(request: &serde_json::Map<String, Value>) -> (detection:
    VirtualToolSummarizerDetection)
    ensures
        detection == detection_with(no_detection(), request_probes(object_view(*request))),
{
    let mut detection = VirtualToolSummarizerDetection::default();
    if let Some(input) = object_get(request, "input") {
        visit_input_strings(input, &mut detection);
    }
    if let Some(instructions) = text_of(object_get(request, "instructions")) {
        update_detection(&mut detection, instructions);
    }
    detection
}

/// Puts the instruction into a request.
pub fn inject_virtual_tool_summarizer_instruction(
    request: &mut serde_json::Map<String, Value>,
) -> (mutation: VirtualToolSummarizerInstructionMutation)
    ensures
        mutation == instruction_mutation(object_view(*old(request))),
        object_view(*final(request)) == with_summarizer_instruction(object_view(*old(request))),
{
    let replacement: Option<String> = match object_get(request, "instructions") {
        Some(value) => match open_value(value) {
            ValueRef::Str(text) => {
                if text_contains(text.as_str(), VIRTUAL_TOOL_SUMMARIZER_COMPATIBILITY_INSTRUCTION) {
                    return VirtualToolSummarizerInstructionMutation::AlreadyPresent;
                }
                let mut extended = text.clone();
                extended.append("\n\n");
                extended.append(VIRTUAL_TOOL_SUMMARIZER_COMPATIBILITY_INSTRUCTION);
                Some(extended)
            },
            ValueRef::Null => None,
            _ => return VirtualToolSummarizerInstructionMutation::SkippedNonString,
        },
        None => None,
    };
    match replacement {
        Some(text) => {
            object_insert(request, "instructions", text_value(text.as_str()));
            VirtualToolSummarizerInstructionMutation::Appended
        },
        None => {
            object_insert(
                request,
                "instructions",
                text_value(VIRTUAL_TOOL_SUMMARIZER_COMPATIBILITY_INSTRUCTION),
            );
            VirtualToolSummarizerInstructionMutation::Inserted
        },
    }
}

/// Puts the instruction into a request that shows all marks.
pub fn maybe_inject_virtual_tool_summarizer_instruction(
    request: &mut serde_json::Map<String, Value>,
)
    ensures
        object_view(*final(request)) == with_summarizer_support(object_view(*old(request))),
{
    if detect_virtual_tool_summarizer_request(request).is_match() {
        let _ = inject_virtual_tool_summarizer_instruction(request);
    }
}

/// Putting the instruction in a second time changes nothing.
pub proof fn law_summarizer_instruction_is_idempotent(request: Map<Seq<char>, Json>)
    ensures
        with_summarizer_instruction(with_summarizer_instruction(request))
            == with_summarizer_instruction(request),
{
    let instruction = VIRTUAL_TOOL_SUMMARIZER_COMPATIBILITY_INSTRUCTION@;
    reveal(contains_text);
    match member(request, "instructions"@) {
        Some(Json::Str(text)) => {
            let extended = text + "\n\n"@ + instruction;
            let start = (text + "\n\n"@).len() as int;
            assert(extended.subrange(start, start + instruction.len()) =~= instruction);
            assert(contains_text(extended, instruction));
        },
        _ => {
            let start = 0int;
            assert(instruction.subrange(start, start + instruction.len()) =~= instruction);
            assert(contains_text(instruction, instruction));
        },
    }
}

/// A request keeps everything that the client put into it: at most an instruction comes behind the
/// client's instructions, or in place of none. A request that was not recognised, or whose
/// instructions are neither text nor missing, stays as it is.
pub proof fn law_summarizer_support_only_adds_an_instruction(
    request: Map<Seq<char>, Json>,
    key: Seq<char>,
)
    ensures
        key != "instructions"@ ==> member(with_summarizer_support(request), key) == member(
            request,
            key,
        ),
        match member(request, "instructions"@) {
            Some(Json::Str(text)) => member(
                with_summarizer_support(request),
                "instructions"@,
            ) matches Some(Json::Str(extended)) && text.is_prefix_of(extended),
            None | Some(Json::Null) => true,
            other => member(with_summarizer_support(request), "instructions"@) == other,
        },
        !is_summarizer_request(detection_with(no_detection(), request_probes(request)))
            ==> with_summarizer_support(request) == request,
        is_summarizer_request(detection_with(no_detection(), request_probes(request))) ==> match member(
            with_summarizer_support(request),
            "instructions"@,
        ) {
            Some(Json::Str(text)) => contains_text(
                text,
                VIRTUAL_TOOL_SUMMARIZER_COMPATIBILITY_INSTRUCTION@,
            ),
            None | Some(Json::Null) => false,
            _ => true,
        },
{
    reveal(contains_text);
    let instruction = VIRTUAL_TOOL_SUMMARIZER_COMPATIBILITY_INSTRUCTION@;
    match member(request, "instructions"@) {
        Some(Json::Str(text)) => {
            let extended = text + "\n\n"@ + instruction;
            let at: int = text.len() + "\n\n"@.len() as int;
            assert(text.is_prefix_of(extended));
            assert(text.is_prefix_of(text));
            assert(extended.subrange(at, at + instruction.len()) =~= instruction);
            assert(contains_text(extended, instruction));
        },
        _ => {
            let at: int = 0;
            assert(instruction.subrange(at, at + instruction.len()) =~= instruction);
            assert(contains_text(instruction, instruction));
        },
    }
}

} // verus!
