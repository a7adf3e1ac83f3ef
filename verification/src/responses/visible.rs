//! The assistant's visible text in the upstream event stream: where it comes from, what the client
//! has been shown of it, and the deltas that stand in for text that came without any.

use crate::json::{
    array_of, array_view, field, field_is, field_of, field_text, field_text_view, json_array,
    json_field, json_str, json_u64, json_view, make_value, new_object, no_members, object_insert,
    optional_field, owned_text_of, text_value, u64_of, Json, JsonNumber, Node,
};
use crate::text::{copy_text, is_blank, optional_text, same_optional_text, same_text, text_is_blank};
use serde_json::Value;
use vstd::prelude::*;

verus! {

/// Where a piece of text stands in a response.
#[derive(Debug, Clone)]
pub struct VisibleTextSourceKey {
    pub item_id: Option<String>,
    pub output_index: Option<u64>,
    pub content_index: Option<u64>,
}

/// The contents of a [`VisibleTextSourceKey`].
#[verifier::ext_equal]
pub struct SourceKey {
    pub item_id: Option<Seq<char>>,
    pub output_index: Option<u64>,
    pub content_index: Option<u64>,
}

impl View for VisibleTextSourceKey {
    type V = SourceKey;

    open spec fn view(&self) -> SourceKey {
        SourceKey {
            item_id: optional_text(self.item_id),
            output_index: self.output_index,
            content_index: self.content_index,
        }
    }
}

/// What tells two pieces of text apart.
#[derive(Debug, Clone)]
pub enum VisibleTextDedupeIdentity {
    ItemId { item_id: String, content_index: Option<u64> },
    OutputIndex { output_index: u64, content_index: Option<u64> },
}

/// The contents of a [`VisibleTextDedupeIdentity`].
pub enum TextIdentity {
    ItemId { item_id: Seq<char>, content_index: Option<u64> },
    OutputIndex { output_index: u64, content_index: Option<u64> },
}

impl View for VisibleTextDedupeIdentity {
    type V = TextIdentity;

    open spec fn view(&self) -> TextIdentity {
        match self {
            VisibleTextDedupeIdentity::ItemId { item_id, content_index } => TextIdentity::ItemId {
                item_id: item_id@,
                content_index: *content_index,
            },
            VisibleTextDedupeIdentity::OutputIndex { output_index, content_index } => {
                TextIdentity::OutputIndex {
                    output_index: *output_index,
                    content_index: *content_index,
                }
            },
        }
    }
}

/// Text of the assistant, by where it stands.
#[derive(Debug, Clone)]
pub struct VisibleAssistantText {
    pub key: VisibleTextSourceKey,
    pub text: String,
}

/// The contents of a [`VisibleAssistantText`].
pub struct VisibleText {
    pub key: SourceKey,
    pub text: Seq<char>,
}

impl View for VisibleAssistantText {
    type V = VisibleText;

    open spec fn view(&self) -> VisibleText {
        VisibleText { key: self.key@, text: self.text@ }
    }
}

/// The contents of a list of texts.
pub open spec fn texts_view(texts: Seq<VisibleAssistantText>) -> Seq<VisibleText> {
    texts.map_values(|text: VisibleAssistantText| text@)
}

/// The identity of the text under a key: the item's id, or else its place in the output.
pub open spec fn identity_of(key: SourceKey) -> Option<TextIdentity> {
    match (key.item_id, key.output_index) {
        (Some(item_id), _) => Some(
            TextIdentity::ItemId { item_id, content_index: key.content_index },
        ),
        (None, Some(output_index)) => Some(
            TextIdentity::OutputIndex { output_index, content_index: key.content_index },
        ),
        (None, None) => None,
    }
}

/// `members` with a number under `key`, when there is one.
pub open spec fn with_optional_number(
    members: Map<Seq<char>, Json>,
    key: Seq<char>,
    number: Option<u64>,
) -> Map<Seq<char>, Json> {
    match number {
        Some(value) => members.insert(key, Json::Number(JsonNumber::Unsigned(value))),
        None => members,
    }
}

/// The `response.output_text.delta` event that carries a text.
pub open spec fn delta_json(delta: VisibleText) -> Json {
    let members = no_members().insert("type"@, json_str("response.output_text.delta")).insert(
        "delta"@,
        Json::Str(delta.text),
    );
    let identified = match delta.key.item_id {
        Some(item_id) => members.insert("item_id"@, Json::Str(item_id)),
        None => members,
    };
    Json::Object(
        with_optional_number(
            with_optional_number(identified, "output_index"@, delta.key.output_index),
            "content_index"@,
            delta.key.content_index,
        ),
    )
}

/// Where the text of a text event stands.
pub open spec fn event_key(event: Json) -> SourceKey {
    SourceKey {
        item_id: field_text_view(event, "item_id"@),
        output_index: json_u64(json_field(event, "output_index"@)),
        content_index: json_u64(json_field(event, "content_index"@)),
    }
}

/// The delta that stands in for the text of a finished text event, unless the text is blank.
pub open spec fn done_delta(event: Json) -> Seq<VisibleText> {
    match field_text_view(event, "text"@) {
        Some(text) if !is_blank(text) => seq![VisibleText { key: event_key(event), text }],
        _ => Seq::empty(),
    }
}

/// Whether an item is a message of the assistant.
pub open spec fn is_assistant_message(item: Json) -> bool {
    field_text_view(item, "type"@) == Some("message"@) && field_text_view(item, "role"@) == Some(
        "assistant"@,
    )
}

/// The text of a content part that the client can see.
pub open spec fn visible_part(part: Json) -> Option<Seq<char>> {
    match field_text_view(part, "text"@) {
        Some(text) if field_text_view(part, "type"@) == Some("output_text"@) && !is_blank(
            text,
        ) => Some(text),
        _ => None,
    }
}

/// The visible texts in the first `count` content parts of an item.
pub open spec fn content_texts(
    content: Seq<Json>,
    item_id: Option<Seq<char>>,
    output_index: Option<u64>,
    count: int,
) -> Seq<VisibleText>
    decreases count,
{
    if count <= 0 {
        Seq::empty()
    } else {
        let earlier = content_texts(content, item_id, output_index, count - 1);
        match visible_part(content[count - 1]) {
            Some(text) => earlier.push(
                VisibleText {
                    key: SourceKey {
                        item_id,
                        output_index,
                        content_index: Some((count - 1) as u64),
                    },
                    text,
                },
            ),
            None => earlier,
        }
    }
}

/// The visible texts of an item of the output.
pub open spec fn item_texts(item: Json, output_index: Option<u64>) -> Seq<VisibleText> {
    match json_array(json_field(item, "content"@)) {
        Some(content) if is_assistant_message(item) => content_texts(
            content,
            field_text_view(item, "id"@),
            output_index,
            content.len() as int,
        ),
        _ => Seq::empty(),
    }
}

/// The visible texts of the item that an event reports.
pub open spec fn event_item_texts(event: Json) -> Seq<VisibleText> {
    match json_field(event, "item"@) {
        Some(item) => item_texts(item, json_u64(json_field(event, "output_index"@))),
        None => Seq::empty(),
    }
}

/// The visible texts of the first `count` items of an output.
pub open spec fn output_texts(output: Seq<Json>, count: int) -> Seq<VisibleText>
    decreases count,
{
    if count <= 0 {
        Seq::empty()
    } else {
        output_texts(output, count - 1) + item_texts(output[count - 1], Some((count - 1) as u64))
    }
}

/// All texts one after the other.
pub open spec fn concatenated(texts: Seq<VisibleText>) -> Seq<char>
    decreases texts.len(),
{
    if texts.len() == 0 {
        Seq::empty()
    } else {
        concatenated(texts.drop_last()) + texts.last().text
    }
}

/// The output of the response that an event carries.
pub open spec fn event_output(event: Json) -> Option<Seq<Json>> {
    json_array(optional_field(json_field(event, "response"@), "output"@))
}

/// The delta that stands in for all visible text of a completed response: it stands where the
/// first of the texts stands.
pub open spec fn completed_delta(event: Json) -> Seq<VisibleText> {
    match event_output(event) {
        Some(output) => {
            let texts = output_texts(output, output.len() as int);
            let text = concatenated(texts);
            if texts.len() == 0 || is_blank(text) {
                Seq::empty()
            } else {
                seq![VisibleText { key: texts[0].key, text }]
            }
        },
        None => Seq::empty(),
    }
}

/// What the client has been shown: which texts by their identity, the texts themselves, and the
/// last text without an identity.
#[derive(Debug, Clone)]
pub struct VisibleTextLog {
    pub sources: Vec<VisibleTextDedupeIdentity>,
    pub texts: Vec<VisibleAssistantText>,
    pub last_unidentified: Option<String>,
}

/// The contents of a [`VisibleTextLog`].
#[verifier::ext_equal]
pub struct VisibleLog {
    pub sources: Set<TextIdentity>,
    pub texts: Seq<VisibleText>,
    pub last_unidentified: Option<Seq<char>>,
}

/// The identities in a list.
pub open spec fn sources_view(sources: Seq<VisibleTextDedupeIdentity>) -> Set<TextIdentity> {
    sources.map_values(|source: VisibleTextDedupeIdentity| source@).to_set()
}

impl View for VisibleTextLog {
    type V = VisibleLog;

    open spec fn view(&self) -> VisibleLog {
        VisibleLog {
            sources: sources_view(self.sources@),
            texts: texts_view(self.texts@),
            last_unidentified: optional_text(self.last_unidentified),
        }
    }
}

/// Nothing was shown yet.
pub open spec fn empty_log() -> VisibleLog {
    VisibleLog { sources: Set::empty(), texts: Seq::empty(), last_unidentified: None }
}

/// The first index at or after `from` whose text stands under `key`; the length when there is none.
pub open spec fn key_index(texts: Seq<VisibleText>, key: SourceKey, from: int) -> int
    decreases texts.len() - from,
{
    if from < 0 || from >= texts.len() {
        texts.len() as int
    } else if texts[from].key == key {
        from
    } else {
        key_index(texts, key, from + 1)
    }
}

/// The texts after one more was shown: it extends the text under its key. Blank text is not kept.
pub open spec fn texts_with(texts: Seq<VisibleText>, shown: VisibleText) -> Seq<VisibleText> {
    let index = key_index(texts, shown.key, 0);
    if is_blank(shown.text) {
        texts
    } else if index < texts.len() {
        texts.update(
            index,
            VisibleText { key: texts[index].key, text: texts[index].text + shown.text },
        )
    } else {
        texts.push(shown)
    }
}

/// Whether text without an identity repeats the last such text.
pub open spec fn repeats_last(log: VisibleLog, text: Seq<char>) -> bool {
    log.last_unidentified == Some(text)
}

/// Whether a text was shown already: by its identity, or as the last one without an identity.
pub open spec fn already_shown(log: VisibleLog, shown: VisibleText) -> bool {
    match identity_of(shown.key) {
        Some(identity) => log.sources.contains(identity),
        None => repeats_last(log, shown.text),
    }
}

/// The log with a text marked as shown.
pub open spec fn marked(log: VisibleLog, shown: VisibleText) -> VisibleLog {
    match identity_of(shown.key) {
        Some(identity) => VisibleLog { sources: log.sources.insert(identity), ..log },
        None => VisibleLog { last_unidentified: Some(shown.text), ..log },
    }
}

/// The log after a text was shown.
pub open spec fn log_with(log: VisibleLog, shown: VisibleText) -> VisibleLog {
    let next = marked(log, shown);
    VisibleLog { texts: texts_with(next.texts, shown), ..next }
}

/// The log after an upstream delta was forwarded. Deltas of one identity add up; only a repeated
/// delta without an identity is not counted again.
pub open spec fn log_with_forwarded(log: VisibleLog, shown: VisibleText) -> VisibleLog {
    if identity_of(shown.key) is None && repeats_last(log, shown.text) {
        log
    } else {
        log_with(log, shown)
    }
}

/// The log after deltas were queued: only those that were not shown already.
pub open spec fn log_with_queued(log: VisibleLog, deltas: Seq<VisibleText>) -> VisibleLog
    decreases deltas.len(),
{
    if deltas.len() == 0 {
        log
    } else {
        let earlier = log_with_queued(log, deltas.drop_last());
        if already_shown(earlier, deltas.last()) {
            earlier
        } else {
            log_with(earlier, deltas.last())
        }
    }
}

/// Those deltas that were not shown already, in order.
pub open spec fn fresh_deltas(log: VisibleLog, deltas: Seq<VisibleText>) -> Seq<VisibleText>
    decreases deltas.len(),
{
    if deltas.len() == 0 {
        Seq::empty()
    } else {
        let earlier = fresh_deltas(log, deltas.drop_last());
        if already_shown(log_with_queued(log, deltas.drop_last()), deltas.last()) {
            earlier
        } else {
            earlier.push(deltas.last())
        }
    }
}

/// Whether any text that is not blank was shown.
pub open spec fn has_visible_text(texts: Seq<VisibleText>) -> bool {
    exists|i: int| 0 <= i < texts.len() && !is_blank((#[trigger] texts[i]).text)
}

impl VisibleTextSourceKey {
    pub fn new(item_id: Option<String>, output_index: Option<u64>, content_index: Option<u64>) -> (key:
        Self)
        ensures
            key@ == (SourceKey { item_id: optional_text(item_id), output_index, content_index }),
    {
        VisibleTextSourceKey { item_id, output_index, content_index }
    }

    /// A key with the same contents.
    pub fn copy(&self) -> (key: Self)
        ensures
            key@ == self@,
    {
        VisibleTextSourceKey {
            item_id: copy_text(&self.item_id),
            output_index: self.output_index,
            content_index: self.content_index,
        }
    }

    fn same(&self, other: &VisibleTextSourceKey) -> (same: bool)
        ensures
            same == (self@ == other@),
    {
        same_optional_text(&self.item_id, &other.item_id) && self.output_index
            == other.output_index && self.content_index == other.content_index
    }

    /// The identity of the text under this key, if it has one.
    pub fn dedupe_identity(&self) -> (identity: Option<VisibleTextDedupeIdentity>)
        ensures
            match identity {
                Some(found) => identity_of(self@) == Some(found@),
                None => identity_of(self@) is None,
            },
    {
        match &self.item_id {
            Some(item_id) => Some(
                VisibleTextDedupeIdentity::ItemId {
                    item_id: item_id.clone(),
                    content_index: self.content_index,
                },
            ),
            None => match self.output_index {
                Some(output_index) => Some(
                    VisibleTextDedupeIdentity::OutputIndex {
                        output_index,
                        content_index: self.content_index,
                    },
                ),
                None => None,
            },
        }
    }
}

impl VisibleTextDedupeIdentity {
    fn same(&self, other: &VisibleTextDedupeIdentity) -> (same: bool)
        ensures
            same == (self@ == other@),
    {
        match (self, other) {
            (
                VisibleTextDedupeIdentity::ItemId { item_id: first, content_index: left },
                VisibleTextDedupeIdentity::ItemId { item_id: second, content_index: right },
            ) => same_text(first.as_str(), second.as_str()) && *left == *right,
            (
                VisibleTextDedupeIdentity::OutputIndex { output_index: first, content_index: left },
                VisibleTextDedupeIdentity::OutputIndex {
                    output_index: second,
                    content_index: right,
                },
            ) => *first == *second && *left == *right,
            _ => false,
        }
    }
}

impl VisibleAssistantText {
    pub fn new(key: VisibleTextSourceKey, text: String) -> (visible: Self)
        ensures
            visible@ == (VisibleText { key: key@, text: text@ }),
    {
        VisibleAssistantText { key, text }
    }

    /// The delta event that carries this text.
    pub fn to_delta(&self) -> (payload: Value)
        ensures
            json_view(payload) == delta_json(self@),
    {
        let mut payload = new_object();
        object_insert(&mut payload, "type", text_value("response.output_text.delta"));
        object_insert(&mut payload, "delta", text_value(self.text.as_str()));
        if let Some(item_id) = &self.key.item_id {
            object_insert(&mut payload, "item_id", text_value(item_id.as_str()));
        }
        if let Some(output_index) = self.key.output_index {
            object_insert(&mut payload, "output_index", make_value(Node::Unsigned(output_index)));
        }
        if let Some(content_index) = self.key.content_index {
            object_insert(&mut payload, "content_index", make_value(Node::Unsigned(content_index)));
        }
        make_value(Node::Object(payload))
    }
}

/// The delta event that carries a text, unless the text is blank.
pub fn response_output_text_delta_payload(key: &VisibleTextSourceKey, delta: &str) -> (payload:
    Option<Value>)
    ensures
        match payload {
            Some(value) => !is_blank(delta@) && json_view(value) == delta_json(
                VisibleText { key: key@, text: delta@ },
            ),
            None => is_blank(delta@),
        },
{
    if text_is_blank(delta) {
        return None;
    }
    Some(VisibleAssistantText::new(key.copy(), delta.to_owned()).to_delta())
}

/// Where the text of a text event stands.
pub fn visible_text_delta_source_key(event: &Value) -> (key: VisibleTextSourceKey)
    ensures
        key@ == event_key(json_view(*event)),
{
    VisibleTextSourceKey::new(
        owned_text_of(field(event, "item_id")),
        u64_of(field(event, "output_index")),
        u64_of(field(event, "content_index")),
    )
}

/// The delta that stands in for the text of a finished text event.
pub fn synthesized_output_text_done_delta(event: &Value) -> (deltas: Vec<VisibleAssistantText>)
    ensures
        texts_view(deltas@) == done_delta(json_view(*event)),
{
    let mut deltas: Vec<VisibleAssistantText> = Vec::new();
    if let Some(text) = field_text(event, "text") {
        if !text_is_blank(text) {
            deltas.push(
                VisibleAssistantText::new(visible_text_delta_source_key(event), text.to_owned()),
            );
        }
    }
    assert(texts_view(deltas@) =~= done_delta(json_view(*event)));
    deltas
}

fn is_assistant_message_value(item: &Value) -> (matched: bool)
    ensures
        matched == is_assistant_message(json_view(*item)),
{
    field_is(item, "type", "message") && field_is(item, "role", "assistant")
}

fn visible_part_text<'a>(part: &'a Value) -> (text: Option<&'a str>)
    ensures
        crate::text::optional_str(text) == visible_part(json_view(*part)),
{
    if !field_is(part, "type", "output_text") {
        return None;
    }
    match field_text(part, "text") {
        Some(text) => if text_is_blank(text) {
            None
        } else {
            Some(text)
        },
        None => None,
    }
}

/// The visible texts of an item of the output.
pub fn message_output_text_delta_payloads(item: &Value, output_index: Option<u64>) -> (deltas: Vec<
    VisibleAssistantText,
>)
    ensures
        texts_view(deltas@) == item_texts(json_view(*item), output_index),
{
    let mut deltas: Vec<VisibleAssistantText> = Vec::new();
    if !is_assistant_message_value(item) {
        assert(texts_view(deltas@) =~= Seq::empty());
        return deltas;
    }
    let content = match array_of(field(item, "content")) {
        Some(content) => content,
        None => {
            assert(texts_view(deltas@) =~= Seq::empty());
            return deltas;
        },
    };
    let item_id = owned_text_of(field(item, "id"));
    let ghost parts = array_view(content@);
    let mut index: usize = 0;
    while index < content.len()
        invariant
            index <= content.len(),
            parts == array_view(content@),
            texts_view(deltas@) =~= content_texts(
                parts,
                optional_text(item_id),
                output_index,
                index as int,
            ),
        decreases content.len() - index,
    {
        assert(parts[index as int] == json_view(content@[index as int]));
        if let Some(text) = visible_part_text(&content[index]) {
            let ghost before = texts_view(deltas@);
            let key = VisibleTextSourceKey::new(
                copy_text(&item_id),
                output_index,
                Some(index as u64),
            );
            deltas.push(VisibleAssistantText::new(key, text.to_owned()));
            assert(texts_view(deltas@) =~= before.push(
                VisibleText {
                    key: SourceKey {
                        item_id: optional_text(item_id),
                        output_index,
                        content_index: Some(index as u64),
                    },
                    text: text@,
                },
            ));
        }
        index = index + 1;
    }
    deltas
}

/// The visible texts of the item that an event reports.
pub fn synthesized_output_item_done_text_delta(event: &Value) -> (deltas: Vec<VisibleAssistantText>)
    ensures
        texts_view(deltas@) == event_item_texts(json_view(*event)),
{
    match field(event, "item") {
        Some(item) => message_output_text_delta_payloads(item, u64_of(field(event, "output_index"))),
        None => {
            let deltas: Vec<VisibleAssistantText> = Vec::new();
            assert(texts_view(deltas@) =~= Seq::empty());
            deltas
        },
    }
}

/// The delta that stands in for all visible text of a completed response.
pub fn synthesized_completed_output_text_delta(event: &Value) -> (deltas: Vec<VisibleAssistantText>)
    ensures
        texts_view(deltas@) == completed_delta(json_view(*event)),
{
    let mut deltas: Vec<VisibleAssistantText> = Vec::new();
    let output = match array_of(field_of(field(event, "response"), "output")) {
        Some(output) => output,
        None => {
            assert(texts_view(deltas@) =~= Seq::empty());
            return deltas;
        },
    };
    let ghost items = array_view(output@);
    let mut first_key: Option<VisibleTextSourceKey> = None;
    let mut combined_text = String::new();
    let mut index: usize = 0;
    while index < output.len()
        invariant
            index <= output.len(),
            items == array_view(output@),
            combined_text@ =~= concatenated(output_texts(items, index as int)),
            match first_key {
                Some(key) => output_texts(items, index as int).len() > 0 && key@ == output_texts(
                    items,
                    index as int,
                )[0].key,
                None => output_texts(items, index as int).len() == 0,
            },
        decreases output.len() - index,
    {
        assert(items[index as int] == json_view(output@[index as int]));
        let texts = message_output_text_delta_payloads(&output[index], Some(index as u64));
        let ghost earlier = output_texts(items, index as int);
        let ghost added = texts_view(texts@);
        let mut position: usize = 0;
        assert(added.take(0) =~= Seq::empty());
        assert(earlier + added.take(0) =~= earlier);
        while position < texts.len()
            invariant
                position <= texts.len(),
                added == texts_view(texts@),
                combined_text@ =~= concatenated(earlier + added.take(position as int)),
                match first_key {
                    Some(key) => (earlier + added.take(position as int)).len() > 0 && key@ == (
                    earlier + added.take(position as int))[0].key,
                    None => (earlier + added.take(position as int)).len() == 0,
                },
            decreases texts.len() - position,
        {
            if first_key.is_none() {
                first_key = Some(texts[position].key.copy());
            }
            combined_text.append(texts[position].text.as_str());
            proof {
                let before = earlier + added.take(position as int);
                let after = earlier + added.take(position + 1);
                assert(after.drop_last() =~= before);
                assert(after.last() == added[position as int]);
            }
            position = position + 1;
        }
        assert(added.take(added.len() as int) =~= added);
        index = index + 1;
    }
    if let Some(key) = first_key {
        if !text_is_blank(combined_text.as_str()) {
            deltas.push(VisibleAssistantText::new(key, combined_text));
        }
    }
    assert(texts_view(deltas@) =~= completed_delta(json_view(*event)));
    deltas
}

/// Adds a shown text to the texts of a response.
pub fn record_visible_assistant_text(
    visible_text: &mut Vec<VisibleAssistantText>,
    key: &VisibleTextSourceKey,
    text: &str,
)
    ensures
        texts_view(final(visible_text)@) == texts_with(
            texts_view(old(visible_text)@),
            VisibleText { key: key@, text: text@ },
        ),
{
    if text_is_blank(text) {
        return;
    }
    let ghost before = texts_view(visible_text@);
    let mut index: usize = 0;
    while index < visible_text.len()
        invariant
            index <= visible_text.len(),
            before == texts_view(visible_text@),
            *visible_text == *old(visible_text),
            !is_blank(text@),
            key_index(before, key@, 0) == key_index(before, key@, index as int),
        decreases visible_text.len() - index,
    {
        assert(before[index as int] == visible_text@[index as int]@);
        if visible_text[index].key.same(key) {
            let mut extended = visible_text[index].text.clone();
            extended.append(text);
            let entry = VisibleAssistantText::new(visible_text[index].key.copy(), extended);
            visible_text.set(index, entry);
            assert(texts_view(visible_text@) =~= texts_with(
                before,
                VisibleText { key: key@, text: text@ },
            ));
            return;
        }
        index = index + 1;
    }
    visible_text.push(VisibleAssistantText::new(key.copy(), text.to_owned()));
    assert(texts_view(visible_text@) =~= before.push(VisibleText { key: key@, text: text@ }));
}

/// Whether any text that is not blank was shown.
pub fn has_accumulated_visible_assistant_text(visible_text: &Vec<VisibleAssistantText>) -> (found:
    bool)
    ensures
        found == has_visible_text(texts_view(visible_text@)),
{
    let mut index: usize = 0;
    while index < visible_text.len()
        invariant
            index <= visible_text.len(),
            forall|i: int|
                0 <= i < index ==> is_blank((#[trigger] texts_view(visible_text@)[i]).text),
        decreases visible_text.len() - index,
    {
        if !text_is_blank(visible_text[index].text.as_str()) {
            assert(!is_blank(texts_view(visible_text@)[index as int].text));
            return true;
        }
        index = index + 1;
    }
    false
}

impl VisibleTextLog {
    pub fn new() -> (log: Self)
        ensures
            log@ == empty_log(),
    {
        let log = VisibleTextLog { sources: Vec::new(), texts: Vec::new(), last_unidentified: None };
        assert(log@ =~= empty_log());
        log
    }

    fn holds_source(&self, identity: &VisibleTextDedupeIdentity) -> (found: bool)
        ensures
            found == self@.sources.contains(identity@),
    {
        let ghost identities = self.sources@.map_values(|source: VisibleTextDedupeIdentity| source@);
        let mut index: usize = 0;
        while index < self.sources.len()
            invariant
                index <= self.sources.len(),
                identities == self.sources@.map_values(
                    |source: VisibleTextDedupeIdentity| source@,
                ),
                forall|i: int| 0 <= i < index ==> #[trigger] identities[i] != identity@,
            decreases self.sources.len() - index,
        {
            assert(identities[index as int] == self.sources@[index as int]@);
            if self.sources[index].same(identity) {
                assert(identities.contains(identity@));
                return true;
            }
            index = index + 1;
        }
        false
    }

    fn mark(&mut self, key: &VisibleTextSourceKey, text: &str)
        ensures
            final(self)@ == marked(old(self)@, VisibleText { key: key@, text: text@ }),
    {
        match key.dedupe_identity() {
            Some(identity) if self.holds_source(&identity) => {
                assert(self@.sources.insert(identity@) =~= self@.sources);
            },
            Some(identity) => {
                let ghost before = self.sources@.map_values(
                    |source: VisibleTextDedupeIdentity| source@,
                );
                self.sources.push(identity);
                proof {
                    let after = self.sources@.map_values(
                        |source: VisibleTextDedupeIdentity| source@,
                    );
                    assert(after =~= before.push(identity@));
                    assert(after.to_set() =~= before.to_set().insert(identity@)) by {
                        assert forall|id: TextIdentity| after.to_set().contains(
                            id,
                        ) == before.to_set().insert(identity@).contains(id) by {
                            if before.contains(id) {
                                let i = choose|i: int| 0 <= i < before.len() && before[i] == id;
                                assert(after[i] == id);
                            }
                            assert(after[before.len() as int] == identity@);
                        }
                    }
                }
            },
            None => {
                self.last_unidentified = Some(text.to_owned());
            },
        }
        assert(self@ =~= marked(old(self)@, VisibleText { key: key@, text: text@ }));
    }

    fn repeats(&self, text: &str) -> (repeated: bool)
        ensures
            repeated == repeats_last(self@, text@),
    {
        match &self.last_unidentified {
            Some(last) => same_text(last.as_str(), text),
            None => false,
        }
    }

    /// Whether a text was shown already.
    pub fn was_shown(&self, key: &VisibleTextSourceKey, text: &str) -> (shown: bool)
        ensures
            shown == already_shown(self@, VisibleText { key: key@, text: text@ }),
    {
        match key.dedupe_identity() {
            Some(identity) => self.holds_source(&identity),
            None => self.repeats(text),
        }
    }

    /// Notes that a text is shown.
    pub fn show(&mut self, key: &VisibleTextSourceKey, text: &str)
        ensures
            final(self)@ == log_with(old(self)@, VisibleText { key: key@, text: text@ }),
    {
        self.mark(key, text);
        record_visible_assistant_text(&mut self.texts, key, text);
    }

    /// Notes that an upstream delta is forwarded.
    pub fn record_forwarded_visible_text_delta(&mut self, key: &VisibleTextSourceKey, delta: &str)
        ensures
            final(self)@ == log_with_forwarded(
                old(self)@,
                VisibleText { key: key@, text: delta@ },
            ),
    {
        if key.dedupe_identity().is_none() && self.repeats(delta) {
            return;
        }
        self.show(key, delta);
    }

    /// Notes the deltas that were not shown yet and hands them out.
    pub fn queue_visible_text_deltas(&mut self, deltas: Vec<VisibleAssistantText>) -> (fresh: Vec<
        VisibleAssistantText,
    >)
        ensures
            final(self)@ == log_with_queued(old(self)@, texts_view(deltas@)),
            texts_view(fresh@) == fresh_deltas(old(self)@, texts_view(deltas@)),
    {
        let mut fresh: Vec<VisibleAssistantText> = Vec::new();
        let ghost before = self@;
        let ghost all = texts_view(deltas@);
        let mut index: usize = 0;
        assert(all.take(0) =~= Seq::empty());
        assert(texts_view(fresh@) =~= Seq::empty());
        while index < deltas.len()
            invariant
                index <= deltas.len(),
                all == texts_view(deltas@),
                self@ == log_with_queued(before, all.take(index as int)),
                texts_view(fresh@) == fresh_deltas(before, all.take(index as int)),
            decreases deltas.len() - index,
        {
            let delta = &deltas[index];
            proof {
                assert(all.take(index + 1).drop_last() =~= all.take(index as int));
                assert(all.take(index + 1).last() == delta@);
            }
            if !self.was_shown(&delta.key, delta.text.as_str()) {
                self.show(&delta.key, delta.text.as_str());
                let ghost queued = texts_view(fresh@);
                fresh.push(VisibleAssistantText::new(delta.key.copy(), delta.text.clone()));
                assert(texts_view(fresh@) =~= queued.push(delta@));
            }
            index = index + 1;
        }
        assert(all.take(index as int) =~= all);
        fresh
    }
}

/// A text with an identity is handed out at most once: queueing it again hands out nothing and
/// changes nothing.
pub proof fn law_identified_text_is_queued_once(log: VisibleLog, delta: VisibleText)
    requires
        identity_of(delta.key) is Some,
    ensures
        ({
            let once = log_with_queued(log, seq![delta]);
            &&& fresh_deltas(once, seq![delta]).len() == 0
            &&& log_with_queued(once, seq![delta]) == once
        }),
{
    reveal_with_fuel(log_with_queued, 2);
    reveal_with_fuel(fresh_deltas, 2);
    assert(seq![delta].drop_last() =~= Seq::empty());
}

/// Text that was forwarded as an upstream delta is not handed out again when the upstream later
/// reports the finished text under the same identity.
pub proof fn law_forwarded_text_is_not_repeated(log: VisibleLog, delta: VisibleText, done: VisibleText)
    requires
        identity_of(delta.key) is Some,
        identity_of(done.key) == identity_of(delta.key),
    ensures
        fresh_deltas(log_with_forwarded(log, delta), seq![done]).len() == 0,
{
    reveal_with_fuel(log_with_queued, 2);
    reveal_with_fuel(fresh_deltas, 2);
    assert(seq![done].drop_last() =~= Seq::empty());
}

} // verus!
