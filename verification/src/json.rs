//! JSON documents.
//!
//! The bridge reads and writes `serde_json` values. Their contents are modelled by [`Json`], and
//! every `serde_json` operation that the bridge calls is described over that model.

use serde_json::Value;
use vstd::prelude::*;

verus! {

/// A JSON number: either an unsigned 64-bit integer, or any other number by its written form.
pub enum JsonNumber {
    Unsigned(u64),
    Other(Seq<char>),
}

/// The contents of a JSON document.
pub enum Json {
    Null,
    Bool(bool),
    Number(JsonNumber),
    Str(Seq<char>),
    Array(Seq<Json>),
    Object(Map<Seq<char>, Json>),
}

/// `serde_json::Value`: one JSON value.
#[verifier::external_type_specification]
#[verifier::external_body]
pub struct ExternalValue(serde_json::Value);

/// `serde_json::Map`: the members of a JSON object.
#[verifier::external_type_specification]
#[verifier::external_body]
#[verifier::reject_recursive_types(K)]
#[verifier::reject_recursive_types(V)]
pub struct ExternalMap<K, V>(serde_json::Map<K, V>);

/// `serde_json::Error`: why a text is no JSON document.
#[verifier::external_type_specification]
#[verifier::external_body]
pub struct ExternalError(serde_json::Error);

/// What a `serde_json::Value` holds.
pub uninterp spec fn json_view(value: serde_json::Value) -> Json;

/// What a `serde_json::Map` holds.
pub uninterp spec fn object_view(map: serde_json::Map<String, serde_json::Value>) -> Map<
    Seq<char>,
    Json,
>;

/// The document that `serde_json::from_str` reads from a text; `None` when it refuses the text.
pub uninterp spec fn parsed_json(text: Seq<char>) -> Option<Json>;

/// The compact text that `serde_json` writes for a document.
pub uninterp spec fn serialized_json(document: Json) -> Seq<char>;

/// What a sequence of `serde_json` values holds.
pub open spec fn array_view(values: Seq<serde_json::Value>) -> Seq<Json> {
    values.map_values(|value: serde_json::Value| json_view(value))
}

/// What an optional `serde_json` value holds.
pub open spec fn optional_json(value: Option<&serde_json::Value>) -> Option<Json> {
    match value {
        Some(inner) => Some(json_view(*inner)),
        None => None,
    }
}

/// A text as a JSON document.
pub open spec fn json_str(text: &str) -> Json {
    Json::Str(text@)
}

/// The member `key` of a document; `None` when there is none or the document is no object.
pub open spec fn json_field(document: Json, key: Seq<char>) -> Option<Json> {
    match document {
        Json::Object(members) if members.contains_key(key) => Some(members[key]),
        _ => None,
    }
}

/// The member `key` of a document that may be absent.
pub open spec fn optional_field(document: Option<Json>, key: Seq<char>) -> Option<Json> {
    match document {
        Some(inner) => json_field(inner, key),
        None => None,
    }
}

/// The text of a document that is a string.
pub open spec fn json_text(document: Option<Json>) -> Option<Seq<char>> {
    match document {
        Some(Json::Str(text)) => Some(text),
        _ => None,
    }
}

/// The elements of a document that is an array.
pub open spec fn json_array(document: Option<Json>) -> Option<Seq<Json>> {
    match document {
        Some(Json::Array(items)) => Some(items),
        _ => None,
    }
}

/// The members of a document that is an object.
pub open spec fn json_object(document: Option<Json>) -> Option<Map<Seq<char>, Json>> {
    match document {
        Some(Json::Object(members)) => Some(members),
        _ => None,
    }
}

/// The value of a document that is an unsigned integer.
pub open spec fn json_u64(document: Option<Json>) -> Option<u64> {
    match document {
        Some(Json::Number(JsonNumber::Unsigned(value))) => Some(value),
        _ => None,
    }
}

/// The member `key` of an object, when it is a string.
pub open spec fn field_text_view(document: Json, key: Seq<char>) -> Option<Seq<char>> {
    json_text(json_field(document, key))
}

/// The member `key` of an object's members.
pub open spec fn member(members: Map<Seq<char>, Json>, key: Seq<char>) -> Option<Json> {
    if members.contains_key(key) {
        Some(members[key])
    } else {
        None
    }
}

/// The members of an empty object.
pub open spec fn no_members() -> Map<Seq<char>, Json> {
    Map::empty()
}

/// A `serde_json::Value` opened for reading.
pub enum ValueRef<'a> {
    Null,
    Bool(bool),
    Number,
    Str(&'a String),
    Array(&'a Vec<Value>),
    Object(&'a serde_json::Map<String, Value>),
}

/// The parts from which a `serde_json::Value` is made.
pub enum Node {
    Null,
    Bool(bool),
    Unsigned(u64),
    Signed(i64),
    Str(String),
    Array(Vec<Value>),
    Object(serde_json::Map<String, Value>),
}

/// An integer as a document.
pub open spec fn json_integer(value: int) -> Json {
    if value >= 0 {
        Json::Number(JsonNumber::Unsigned(value as u64))
    } else {
        Json::Number(JsonNumber::Other(crate::text::signed_decimal_text(value)))
    }
}

/// The document that a node stands for.
pub open spec fn node_view(node: Node) -> Json {
    match node {
        Node::Null => Json::Null,
        Node::Bool(flag) => Json::Bool(flag),
        Node::Unsigned(value) => Json::Number(JsonNumber::Unsigned(value)),
        Node::Signed(value) => json_integer(value as int),
        Node::Str(text) => Json::Str(text@),
        Node::Array(values) => Json::Array(array_view(values@)),
        Node::Object(map) => Json::Object(object_view(map)),
    }
}

/// Wraps `serde_json::from_str` for a `Value`: the document that the text denotes, or an error
/// exactly when the text is refused.
#[verifier::external_body]
pub(crate) fn parse_json(text: &str) -> (parsed: Result<Value, serde_json::Error>)
    ensures
        match parsed {
            Ok(value) => parsed_json(text@) == Some(json_view(value)),
            Err(_) => parsed_json(text@) is None,
        },
{
    serde_json::from_str::<Value>(text)
}

/// Wraps `Value`'s `to_string`, which writes the document as compact JSON text. An unsigned
/// number is written in decimal, any other number in its own written form.
#[verifier::external_body]
pub(crate) fn value_text(value: &Value) -> (text: String)
    ensures
        text@ == serialized_json(json_view(*value)),
        json_view(*value) matches Json::Number(JsonNumber::Unsigned(number)) ==> text@
            == crate::text::decimal_text(number as nat),
        json_view(*value) matches Json::Number(JsonNumber::Other(written)) ==> text@ == written,
{
    value.to_string()
}

/// Tells the variants of `serde_json::Value` apart and hands out what each holds.
#[verifier::external_body]
pub(crate) fn open_value<'a>(value: &'a Value) -> (opened: ValueRef<'a>)
    ensures
        match opened {
            ValueRef::Null => json_view(*value) == Json::Null,
            ValueRef::Bool(flag) => json_view(*value) == Json::Bool(flag),
            ValueRef::Number => json_view(*value) is Number,
            ValueRef::Str(text) => json_view(*value) == Json::Str(text@),
            ValueRef::Array(values) => json_view(*value) == Json::Array(array_view(values@)),
            ValueRef::Object(map) => json_view(*value) == Json::Object(object_view(*map)),
        },
{
    match value {
        Value::Null => ValueRef::Null,
        Value::Bool(flag) => ValueRef::Bool(*flag),
        Value::Number(_) => ValueRef::Number,
        Value::String(text) => ValueRef::Str(text),
        Value::Array(values) => ValueRef::Array(values),
        Value::Object(map) => ValueRef::Object(map),
    }
}

/// Makes a `serde_json::Value` of one variant from what it is to hold; an integer becomes a
/// number by `Value::from`.
#[verifier::external_body]
pub(crate) fn make_value(node: Node) -> (value: Value)
    ensures
        json_view(value) == node_view(node),
{
    match node {
        Node::Null => Value::Null,
        Node::Bool(flag) => Value::Bool(flag),
        Node::Unsigned(number) => Value::from(number),
        Node::Signed(number) => Value::from(number),
        Node::Str(text) => Value::String(text),
        Node::Array(values) => Value::Array(values),
        Node::Object(map) => Value::Object(map),
    }
}

/// Wraps `Value::as_u64`: the number, when the value is an unsigned integer.
#[verifier::external_body]
pub(crate) fn value_as_u64(value: &Value) -> (number: Option<u64>)
    ensures
        number == json_u64(Some(json_view(*value))),
{
    value.as_u64()
}

/// `Value`'s `clone`: a copy with the same contents.
pub assume_specification[ <serde_json::Value as Clone>::clone ](value: &serde_json::Value) -> (copy:
    serde_json::Value)
    ensures
        json_view(copy) == json_view(*value),
;

/// Wraps `serde_json::Map::new`: an object without members.
#[verifier::external_body]
pub(crate) fn new_object() -> (created: serde_json::Map<String, Value>)
    ensures
        object_view(created) == no_members(),
{
    serde_json::Map::new()
}

/// `serde_json::Map`'s `clone`: a copy with the same members.
pub assume_specification[ <serde_json::Map<String, serde_json::Value> as Clone>::clone ](
    map: &serde_json::Map<String, serde_json::Value>,
) -> (copy: serde_json::Map<String, serde_json::Value>)
    ensures
        object_view(copy) == object_view(*map),
;

/// Wraps `serde_json::Map::get`: the member under a key, if there is one.
#[verifier::external_body]
pub(crate) fn object_get<'a>(
    map: &'a serde_json::Map<String, Value>,
    key: &str,
) -> (found: Option<&'a Value>)
    ensures
        optional_json(found) == member(object_view(*map), key@),
{
    map.get(key)
}

/// Wraps `serde_json::Map::insert`: sets the member under a key, replacing an earlier one.
#[verifier::external_body]
pub(crate) fn object_insert(map: &mut serde_json::Map<String, Value>, key: &str, value: Value)
    ensures
        object_view(*final(map)) == object_view(*old(map)).insert(key@, json_view(value)),
{
    map.insert(key.to_string(), value);
}

/// Wraps `serde_json::Map::remove`: takes the member under a key out of the object.
#[verifier::external_body]
pub(crate) fn object_remove(map: &mut serde_json::Map<String, Value>, key: &str) -> (removed:
    Option<Value>)
    ensures
        object_view(*final(map)) == object_view(*old(map)).remove(key@),
        match removed {
            Some(value) => member(object_view(*old(map)), key@) == Some(json_view(value)),
            None => member(object_view(*old(map)), key@) is None,
        },
{
    map.remove(key)
}

/// Wraps `serde_json::Map::iter`: every member once, under its key.
#[verifier::external_body]
pub(crate) fn object_entries<'a>(map: &'a serde_json::Map<String, Value>) -> (entries: Vec<
    (&'a String, &'a Value),
>)
    ensures
        forall|i: int|
            0 <= i < entries@.len() ==> member(
                object_view(*map),
                (#[trigger] entries@[i]).0@,
            ) == Some(json_view(*entries@[i].1)),
        forall|i: int, j: int|
            0 <= i < j < entries@.len() ==> (#[trigger] entries@[i]).0@ != (
            #[trigger] entries@[j]).0@,
        forall|key: Seq<char>| #[trigger]
            object_view(*map).contains_key(key) ==> exists|i: int|
                0 <= i < entries@.len() && (#[trigger] entries@[i]).0@ == key,
{
    map.iter().collect()
}

/// An object whose members can be listed has finitely many of them.
pub(crate) proof fn lemma_listed_members_finite(
    members: Map<Seq<char>, Json>,
    keys: Seq<Seq<char>>,
)
    requires
        forall|key: Seq<char>| #[trigger] members.contains_key(key) ==> keys.contains(key),
    ensures
        members.dom().finite(),
{
    assert(members.dom().subset_of(keys.to_set()));
    vstd::set_lib::lemma_set_subset_finite(keys.to_set(), members.dom());
}

/// A member of a finite object is smaller than the object.
pub(crate) proof fn lemma_member_decreases(
    document: Json,
    members: Map<Seq<char>, Json>,
    key: Seq<char>,
)
    requires
        document == Json::Object(members),
        members.dom().finite(),
        members.contains_key(key),
    ensures
        decreases_to!(document => members[key]),
{
    assert(decreases_to!(document => document->Object_0));
    assert(decreases_to!(members => members[key]));
}

/// An element of an array is smaller than the array.
pub(crate) proof fn lemma_item_decreases(document: Json, items: Seq<Json>, index: int)
    requires
        document == Json::Array(items),
        0 <= index < items.len(),
    ensures
        decreases_to!(document => items[index]),
{
    assert(decreases_to!(document => document->Array_0));
    assert(decreases_to!(items => items[index]));
}

/// The text of a value that is a string.
pub fn value_str<'a>(value: &'a Value) -> (text: Option<&'a str>)
    ensures
        crate::text::optional_str(text) == json_text(Some(json_view(*value))),
{
    match open_value(value) {
        ValueRef::Str(text) => Some(text.as_str()),
        _ => None,
    }
}

/// The member `key` of a value, when the value is an object that has one.
pub fn field<'a>(value: &'a Value, key: &str) -> (found: Option<&'a Value>)
    ensures
        optional_json(found) == json_field(json_view(*value), key@),
{
    match open_value(value) {
        ValueRef::Object(map) => object_get(map, key),
        _ => None,
    }
}

/// The member `key` of a value that may be absent.
pub fn field_of<'a>(value: Option<&'a Value>, key: &str) -> (found: Option<&'a Value>)
    ensures
        optional_json(found) == optional_field(optional_json(value), key@),
{
    match value {
        Some(inner) => field(inner, key),
        None => None,
    }
}

/// The text of a value that may be absent.
pub fn text_of<'a>(value: Option<&'a Value>) -> (text: Option<&'a str>)
    ensures
        crate::text::optional_str(text) == json_text(optional_json(value)),
{
    match value {
        Some(inner) => value_str(inner),
        None => None,
    }
}

/// The member `key` of a value, when it is a string.
pub fn field_text<'a>(value: &'a Value, key: &str) -> (text: Option<&'a str>)
    ensures
        crate::text::optional_str(text) == field_text_view(json_view(*value), key@),
{
    text_of(field(value, key))
}

/// Whether the member `key` of a value is the string `expected`.
pub fn field_is(value: &Value, key: &str, expected: &str) -> (matched: bool)
    ensures
        matched == (field_text_view(json_view(*value), key@) == Some(expected@)),
{
    match field_text(value, key) {
        Some(text) => crate::text::same_text(text, expected),
        None => false,
    }
}

/// The elements of a value that may be absent, when it is an array.
pub fn array_of<'a>(value: Option<&'a Value>) -> (items: Option<&'a Vec<Value>>)
    ensures
        match items {
            Some(values) => json_array(optional_json(value)) == Some(array_view(values@)),
            None => json_array(optional_json(value)) is None,
        },
{
    match value {
        Some(inner) => match open_value(inner) {
            ValueRef::Array(values) => Some(values),
            _ => None,
        },
        None => None,
    }
}

/// The members of a value that may be absent, when it is an object.
pub fn object_of<'a>(value: Option<&'a Value>) -> (members: Option<
    &'a serde_json::Map<String, Value>,
>)
    ensures
        match members {
            Some(map) => json_object(optional_json(value)) == Some(object_view(*map)),
            None => json_object(optional_json(value)) is None,
        },
{
    match value {
        Some(inner) => match open_value(inner) {
            ValueRef::Object(map) => Some(map),
            _ => None,
        },
        None => None,
    }
}

/// The number in a value that may be absent, when it is an unsigned integer.
pub fn u64_of(value: Option<&Value>) -> (number: Option<u64>)
    ensures
        number == json_u64(optional_json(value)),
{
    match value {
        Some(inner) => value_as_u64(inner),
        None => None,
    }
}

/// What a sequence of references to `serde_json` values holds.
pub open spec fn refs_view(values: Seq<&serde_json::Value>) -> Seq<Json> {
    values.map_values(|value: &serde_json::Value| json_view(*value))
}

/// `value` stands under some key.
pub open spec fn has_member_value(members: Map<Seq<char>, Json>, value: Json) -> bool {
    exists|key: Seq<char>| #[trigger] members.contains_key(key) && members[key] == value
}

/// `children` are the elements of an array, or the values of an object's members in some order.
pub open spec fn lists_children(document: Json, children: Seq<Json>) -> bool {
    match document {
        Json::Array(items) => children == items,
        Json::Object(members) => {
            &&& forall|i: int|
                0 <= i < children.len() ==> has_member_value(members, #[trigger] children[i])
            &&& forall|key: Seq<char>| #[trigger]
                members.contains_key(key) ==> children.contains(members[key])
        },
        _ => children.len() == 0,
    }
}

/// The values directly inside a value.
pub(crate) fn child_values<'a>(value: &'a Value) -> (children: Vec<&'a Value>)
    ensures
        lists_children(json_view(*value), refs_view(children@)),
        forall|i: int|
            0 <= i < children@.len() ==> decreases_to!(
                json_view(*value) => #[trigger] refs_view(children@)[i]
            ),
{
    let mut children: Vec<&'a Value> = Vec::new();
    match open_value(value) {
        ValueRef::Array(values) => {
            let mut index: usize = 0;
            while index < values.len()
                invariant
                    index <= values.len(),
                    refs_view(children@) =~= array_view(values@).take(index as int),
                decreases values.len() - index,
            {
                let ghost before = refs_view(children@);
                children.push(&values[index]);
                assert(refs_view(children@) =~= before.push(array_view(values@)[index as int]));
                index = index + 1;
            }
            assert(refs_view(children@) =~= array_view(values@));
            proof {
                assert forall|i: int| 0 <= i < children@.len() implies decreases_to!(
                    json_view(*value) => #[trigger] refs_view(children@)[i]
                ) by {
                    lemma_item_decreases(json_view(*value), array_view(values@), i);
                }
            }
        },
        ValueRef::Object(map) => {
            let entries = object_entries(map);
            let ghost members = object_view(*map);
            let ghost listed = Seq::new(entries@.len(), |i: int| json_view(*entries@[i].1));
            let mut index: usize = 0;
            while index < entries.len()
                invariant
                    index <= entries.len(),
                    listed == Seq::new(entries@.len(), |i: int| json_view(*entries@[i].1)),
                    refs_view(children@) =~= listed.take(index as int),
                decreases entries.len() - index,
            {
                let ghost before = refs_view(children@);
                children.push(entries[index].1);
                assert(refs_view(children@) =~= before.push(listed[index as int]));
                index = index + 1;
            }
            assert(refs_view(children@) =~= listed);
            proof {
                let keys = Seq::new(entries@.len(), |i: int| entries@[i].0@);
                assert forall|key: Seq<char>| #[trigger] members.contains_key(key) implies
                    keys.contains(key) && listed.contains(members[key]) by {
                    let i = choose|i: int|
                        0 <= i < entries@.len() && (#[trigger] entries@[i]).0@ == key;
                    assert(keys[i] == key);
                    assert(member(members, entries@[i].0@) == Some(json_view(*entries@[i].1)));
                    assert(listed[i] == members[key]);
                }
                lemma_listed_members_finite(members, keys);
                assert forall|i: int| 0 <= i < listed.len() implies has_member_value(
                    members,
                    #[trigger] listed[i],
                ) by {
                    assert(member(members, entries@[i].0@) == Some(json_view(*entries@[i].1)));
                    assert(members.contains_key(entries@[i].0@));
                }
                assert forall|i: int| 0 <= i < children@.len() implies decreases_to!(
                    json_view(*value) => #[trigger] refs_view(children@)[i]
                ) by {
                    assert(member(members, entries@[i].0@) == Some(json_view(*entries@[i].1)));
                    assert(refs_view(children@)[i] == listed[i]);
                    lemma_member_decreases(json_view(*value), members, entries@[i].0@);
                }
            }
        },
        _ => {},
    }
    children
}

/// A string as a JSON value.
pub fn text_value(text: &str) -> (value: Value)
    ensures
        json_view(value) == json_str(text),
{
    make_value(Node::Str(text.to_owned()))
}

/// An owned copy of the text in a value that may be absent.
pub fn owned_text_of(value: Option<&Value>) -> (text: Option<String>)
    ensures
        crate::text::optional_text(text) == json_text(optional_json(value)),
{
    crate::text::owned_text(text_of(value))
}

} // verus!
