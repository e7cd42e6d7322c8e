//! JSON documents, as `serde_json` reads, builds and writes them.
//!
//! A `serde_json::Value` is opaque here: [`json_of`] names what it holds, and the contracts
//! of the functions that read or make one speak of that.

use crate::text::{decimal, optional_view};
use serde_json::Value;
use vstd::prelude::*;

verus! {

/// What a JSON document holds. A number that is not kept as an integer of 64 bits is only known
/// to be there.
#[verifier::ext_equal]
pub enum Json {
    Null,
    Boolean(bool),
    Integer(int),
    Fraction,
    Text(Seq<char>),
    List(Seq<Json>),
    Object(Map<Seq<char>, Json>),
}

/// The whole number that `json` is, if it is one that 64 bits with a sign can hold.
pub open spec fn as_signed(json: Json) -> Option<i64> {
    match json {
        Json::Integer(number) => if i64::MIN <= number <= i64::MAX {
            Some(number as i64)
        } else {
            None
        },
        _ => None,
    }
}

/// The whole number that `json` is, if it is one that 64 bits without a sign can hold.
pub open spec fn as_unsigned(json: Json) -> Option<u64> {
    match json {
        Json::Integer(number) => if 0 <= number <= u64::MAX {
            Some(number as u64)
        } else {
            None
        },
        _ => None,
    }
}

/// The text that `json` is, if it is one.
pub open spec fn as_text(json: Json) -> Option<Seq<char>> {
    match json {
        Json::Text(text) => Some(text),
        _ => None,
    }
}

/// The items that `json` lists, if it is a list.
pub open spec fn as_list(json: Json) -> Option<Seq<Json>> {
    match json {
        Json::List(items) => Some(items),
        _ => None,
    }
}

/// What stands under `key` in `json`, if it is an object that has that key.
pub open spec fn member(json: Json, key: Seq<char>) -> Option<Json> {
    match json {
        Json::Object(fields) => if fields.contains_key(key) {
            Some(fields[key])
        } else {
            None
        },
        _ => None,
    }
}

/// What one step of a JSON pointer leads to: the member of an object under that key, or the
/// item of a list at that position, written in decimal.
pub open spec fn child(json: Json, token: Seq<char>) -> Option<Json> {
    match json {
        Json::List(items) => if exists|i: int|
            0 <= i < items.len() && token == #[trigger] decimal(i as nat) {
            Some(items[choose|i: int| 0 <= i < items.len() && token == #[trigger] decimal(i as nat)])
        } else {
            None
        },
        _ => member(json, token),
    }
}

/// `text` up to its first slash.
pub open spec fn up_to_slash(text: Seq<char>) -> Seq<char>
    decreases text.len(),
{
    if text.len() == 0 || text.first() == '/' {
        Seq::empty()
    } else {
        seq![text.first()] + up_to_slash(text.drop_first())
    }
}

/// A step of a JSON pointer with its escapes replaced: `~1` stands for a slash, `~0` for a
/// tilde.
pub open spec fn unescaped(token: Seq<char>) -> Seq<char>
    decreases token.len(),
{
    if token.len() == 0 {
        Seq::empty()
    } else if token.len() > 1 && token[0] == '~' && token[1] == '1' {
        seq!['/'] + unescaped(token.skip(2))
    } else if token.len() > 1 && token[0] == '~' && token[1] == '0' {
        seq!['~'] + unescaped(token.skip(2))
    } else {
        seq![token.first()] + unescaped(token.drop_first())
    }
}

pub proof fn lemma_up_to_slash_is_no_longer(text: Seq<char>)
    ensures
        up_to_slash(text).len() <= text.len(),
    decreases text.len(),
{
    if text.len() > 0 && text.first() != '/' {
        lemma_up_to_slash_is_no_longer(text.drop_first());
    }
}

/// What a JSON pointer (RFC 6901) leads to in `json`, if it leads anywhere.
pub open spec fn at_pointer(json: Json, pointer: Seq<char>) -> Option<Json>
    decreases pointer.len(),
{
    if pointer.len() == 0 {
        Some(json)
    } else if pointer.first() != '/' {
        None
    } else {
        proof {
            lemma_up_to_slash_is_no_longer(pointer.drop_first());
        }
        let token = up_to_slash(pointer.drop_first());
        match child(json, unescaped(token)) {
            Some(next) => at_pointer(next, pointer.skip(1 + token.len() as int)),
            None => None,
        }
    }
}

/// The whole number that a JSON pointer leads to, if it leads to one.
pub open spec fn signed_at(json: Json, pointer: Seq<char>) -> Option<i64> {
    match at_pointer(json, pointer) {
        Some(found) => as_signed(found),
        None => None,
    }
}

/// The text that a JSON pointer leads to, if it leads to one.
pub open spec fn text_at(json: Json, pointer: Seq<char>) -> Option<Seq<char>> {
    match at_pointer(json, pointer) {
        Some(found) => as_text(found),
        None => None,
    }
}

/// What each of several documents holds.
pub open spec fn jsons_of(values: Seq<Value>) -> Seq<Json> {
    values.map_values(|value: Value| json_of(value))
}

/// The fields of an object under their names, a later one in place of an earlier one of the
/// same name.
pub open spec fn fields_of(fields: Seq<(String, Value)>) -> Map<Seq<char>, Json>
    decreases fields.len(),
{
    if fields.len() == 0 {
        Map::empty()
    } else {
        fields_of(fields.drop_last()).insert(fields.last().0@, json_of(fields.last().1))
    }
}

/// Whether no two fields have the same name.
pub open spec fn names_differ(fields: Seq<(String, Value)>) -> bool {
    forall|i: int, j: int|
        0 <= i < j < fields.len() ==> (#[trigger] fields[i]).0@ != (#[trigger] fields[j]).0@
}

/// Whether `json` is an object of texts and whole numbers.
pub open spec fn is_flat_object(json: Json) -> bool {
    match json {
        Json::Object(fields) => forall|key: Seq<char>| #[trigger]
            fields.contains_key(key) ==> (fields[key] is Text || fields[key] is Integer),
        _ => false,
    }
}

/// A JSON document as `serde_json` holds it.
#[verifier::external_type_specification]
#[verifier::external_body]
pub struct ExValue(serde_json::Value);

/// What `value` holds, variant by variant. The whole numbers are those that `serde_json`
/// keeps as integers; all its other numbers are fractions.
pub uninterp spec fn json_of(value: Value) -> Json;

/// The document that `serde_json::from_str` makes of `text`, if `text` is JSON to it.
pub uninterp spec fn parsed_json(text: Seq<char>) -> Option<Json>;

/// The text that the `Display` of `serde_json::Value` writes of a document that holds `json`,
/// which is an object of texts and whole numbers.
pub uninterp spec fn written_json(json: Json) -> Seq<char>;

/// `serde_json::Value::as_i64` gives a number that is kept as an integer and fits `i64`, and
/// nothing else.
pub assume_specification[ serde_json::Value::as_i64 ](value: &Value) -> (number: Option<i64>)
    ensures
        number == as_signed(json_of(*value)),
;

/// `serde_json::Value::as_u64` gives a number that is kept as an integer and is not negative,
/// and nothing else.
pub assume_specification[ serde_json::Value::as_u64 ](value: &Value) -> (number: Option<u64>)
    ensures
        number == as_unsigned(json_of(*value)),
;

/// `serde_json::Value::as_str` gives the text of a string, and nothing else.
pub assume_specification[ serde_json::Value::as_str ](value: &Value) -> (text: Option<&str>)
    ensures
        optional_view(text) == as_text(json_of(*value)),
;

/// `serde_json::Value::as_array` gives the items of an array, in order, and nothing else.
pub assume_specification[ serde_json::Value::as_array ](value: &Value) -> (items: Option<
    &Vec<Value>,
>)
    ensures
        match items {
            Some(items) => as_list(json_of(*value)) == Some(jsons_of(items@)),
            None => as_list(json_of(*value)) is None,
        },
;

/// `serde_json::Value::pointer` follows a JSON pointer: the empty one leads to the document
/// itself, one that does not start with a slash leads nowhere, and each step of another one
/// leads from an object to a member and from an array to an item.
pub assume_specification<'a>[ serde_json::Value::pointer ](
    value: &'a Value,
    pointer: &str,
) -> (found: Option<&'a Value>)
    ensures
        match found {
            Some(found) => at_pointer(json_of(*value), pointer@) == Some(json_of(*found)),
            None => at_pointer(json_of(*value), pointer@) is None,
        },
;

/// `serde_json::Value::get` with a text gives the member of an object under that key, and
/// nothing else.
#[verifier::external_body]
pub(crate) fn get<'a>(value: &'a Value, key: &str) -> (found: Option<&'a Value>)
    ensures
        match found {
            Some(found) => member(json_of(*value), key@) == Some(json_of(*found)),
            None => member(json_of(*value), key@) is None,
        },
{
    value.get(key)
}

/// `serde_json::from_str` reads a document. What it accepts and what it makes of it is a
/// matter of the text alone.
#[verifier::external_body]
pub(crate) fn parse_json(text: &str) -> (parsed: Option<Value>)
    ensures
        match parsed {
            Some(value) => parsed_json(text@) == Some(json_of(value)),
            None => parsed_json(text@) is None,
        },
{
    serde_json::from_str::<Value>(text).ok()
}

/// The `Display` of `serde_json::Value` writes a document. What it writes of an object of texts
/// and whole numbers is a matter of what that holds, as the fields are kept in the order of
/// their names; it is JSON that starts with a brace, and `serde_json::from_str` reads it back
/// as the same document.
#[verifier::external_body]
pub(crate) fn write_json(value: &Value) -> (text: String)
    requires
        is_flat_object(json_of(*value)),
    ensures
        text@ == written_json(json_of(*value)),
        parsed_json(text@) == Some(json_of(*value)),
        text@.len() > 0,
        text@.first() == '{',
{
    value.to_string()
}

/// `serde_json::Value::from` makes a string of a text.
#[verifier::external_body]
pub(crate) fn text_value(text: String) -> (value: Value)
    ensures
        json_of(value) == Json::Text(text@),
{
    Value::from(text)
}

/// `serde_json::Value::from` keeps an `i64` as an integer.
#[verifier::external_body]
pub(crate) fn signed_value(number: i64) -> (value: Value)
    ensures
        json_of(value) == Json::Integer(number as int),
{
    Value::from(number)
}

/// `serde_json::Value::from` keeps a `u64` as an integer.
#[verifier::external_body]
pub(crate) fn unsigned_value(number: u64) -> (value: Value)
    ensures
        json_of(value) == Json::Integer(number as int),
{
    Value::from(number)
}

/// `serde_json::Value::from` makes an array of documents, in order.
#[verifier::external_body]
pub(crate) fn list_value(items: Vec<Value>) -> (value: Value)
    ensures
        json_of(value) == Json::List(jsons_of(items@)),
{
    Value::from(items)
}

/// `serde_json::Value::from_iter` makes an object of named documents.
#[verifier::external_body]
pub(crate) fn object_value(fields: Vec<(String, Value)>) -> (value: Value)
    requires
        names_differ(fields@),
    ensures
        json_of(value) == Json::Object(fields_of(fields@)),
{
    Value::from_iter(fields)
}

proof fn lemma_fields_of_names(fields: Seq<(String, Value)>, i: int)
    requires
        0 <= i < fields.len(),
    ensures
        fields_of(fields).contains_key(fields[i].0@),
    decreases fields.len(),
{
    if i < fields.len() - 1 {
        lemma_fields_of_names(fields.drop_last(), i);
    }
}

/// The fields of an object that is being put together.
pub(crate) struct Fields {
    list: Vec<(String, Value)>,
}

impl View for Fields {
    type V = Map<Seq<char>, Json>;

    closed spec fn view(&self) -> Map<Seq<char>, Json> {
        fields_of(self.list@)
    }
}

impl Fields {
    /// Whether no two fields have the same name.
    pub closed spec fn wf(self) -> bool {
        names_differ(self.list@)
    }

    /// No fields yet.
    pub fn new() -> (fields: Fields)
        ensures
            fields.wf(),
            fields@ == Map::<Seq<char>, Json>::empty(),
    {
        Fields { list: Vec::new() }
    }

    /// These fields and one more.
    pub fn with(self, name: &str, value: Value) -> (fields: Fields)
        requires
            self.wf(),
            !self@.contains_key(name@),
        ensures
            fields.wf(),
            fields@ == self@.insert(name@, json_of(value)),
    {
        let mut list: Vec<(String, Value)> = self.list;
        let ghost before = list@;
        list.push((name.to_owned(), value));
        proof {
            assert(list@.drop_last() =~= before);
            assert forall|i: int| 0 <= i < before.len() implies (#[trigger] before[i]).0@
                != name@ by {
                lemma_fields_of_names(before, i);
            }
        }
        Fields { list }
    }

    /// The object with these fields.
    pub fn into_value(self) -> (value: Value)
        requires
            self.wf(),
        ensures
            json_of(value) == Json::Object(self@),
    {
        object_value(self.list)
    }
}

/// A JSON pointer leads to a number exactly if a whole number of 64 bits stands where it leads,
/// and to a text exactly if a text does.
pub proof fn pointers_lead_to_what_stands_there(
    json: Json,
    pointer: Seq<char>,
    number: i64,
    text: Seq<char>,
)
    ensures
        signed_at(json, pointer) == Some(number) <==> at_pointer(json, pointer) == Some(
            Json::Integer(number as int),
        ),
        text_at(json, pointer) == Some(text) <==> at_pointer(json, pointer) == Some(
            Json::Text(text),
        ),
{
}

/// The whole number that a JSON pointer leads to, if it leads to one.
pub fn id_at(value: &Value, pointer: &str) -> (id: Option<i64>)
    ensures
        id == signed_at(json_of(*value), pointer@),
{
    match value.pointer(pointer) {
        Some(found) => found.as_i64(),
        None => None,
    }
}

/// The text that a JSON pointer leads to, if it leads to one.
pub fn str_at<'a>(value: &'a Value, pointer: &str) -> (text: Option<&'a str>)
    ensures
        optional_view(text) == text_at(json_of(*value), pointer@),
{
    match value.pointer(pointer) {
        Some(found) => found.as_str(),
        None => None,
    }
}

} // verus!
