//! JSON documents as plain values, read and written by `serde_json`.
use crate::text::hex_digit;
use std::collections::BTreeMap;
use vstd::prelude::*;

verus! {

/// A JSON number, carried through unread.
#[verifier::external_type_specification]
#[verifier::external_body]
pub struct ExNumber(serde_json::Number);

/// A parsed JSON value, as `serde_json` holds it.
#[verifier::external_type_specification]
#[verifier::external_body]
pub struct ExValue(serde_json::Value);

/// A JSON document.
pub enum Json {
    Null,
    Bool(bool),
    Number(serde_json::Number),
    Text(String),
    List(Vec<Json>),
    Object(Vec<(String, Json)>),
}

/// What a JSON document says.
pub enum JsonModel {
    Null,
    Bool(bool),
    Number(serde_json::Number),
    Text(Seq<char>),
    List(Seq<JsonModel>),
    Object(Seq<(Seq<char>, JsonModel)>),
}

/// What `json` says.
pub open spec fn model(json: Json) -> JsonModel
    decreases json, 0nat,
{
    match json {
        Json::Null => JsonModel::Null,
        Json::Bool(b) => JsonModel::Bool(b),
        Json::Number(n) => JsonModel::Number(n),
        Json::Text(s) => JsonModel::Text(s@),
        Json::List(items) => JsonModel::List(list_model(items, items@.len())),
        Json::Object(fields) => JsonModel::Object(fields_model(fields, fields@.len())),
    }
}

/// What the first `n` items say.
pub open spec fn list_model(items: Vec<Json>, n: nat) -> Seq<JsonModel>
    decreases items, n,
{
    if n == 0 || n > items@.len() {
        Seq::empty()
    } else {
        list_model(items, (n - 1) as nat).push(model(items[n - 1]))
    }
}

/// What the first `n` fields say.
pub open spec fn fields_model(fields: Vec<(String, Json)>, n: nat) -> Seq<(Seq<char>, JsonModel)>
    decreases fields, n,
{
    if n == 0 || n > fields@.len() {
        Seq::empty()
    } else {
        fields_model(fields, (n - 1) as nat).push((fields[n - 1].0@, model(fields[n - 1].1)))
    }
}

pub open spec fn longer(a: nat, b: nat) -> nat {
    if a >= b {
        a
    } else {
        b
    }
}

/// The length of the longest text value; the names of fields do not count.
pub open spec fn longest(json: JsonModel) -> nat
    decreases json, 0nat,
{
    match json {
        JsonModel::Text(s) => s.len(),
        JsonModel::List(items) => longest_item(items, items.len()),
        JsonModel::Object(fields) => longest_field(fields, fields.len()),
        _ => 0,
    }
}

/// The length of the longest text value in the first `n` items.
pub open spec fn longest_item(items: Seq<JsonModel>, n: nat) -> nat
    decreases items, n,
{
    if n == 0 || n > items.len() {
        0
    } else {
        longer(longest_item(items, (n - 1) as nat), longest(items[n - 1]))
    }
}

/// The length of the longest text value in the first `n` fields.
pub open spec fn longest_field(fields: Seq<(Seq<char>, JsonModel)>, n: nat) -> nat
    decreases fields, n,
{
    if n == 0 || n > fields.len() {
        0
    } else {
        longer(longest_field(fields, (n - 1) as nat), longest(fields[n - 1].1))
    }
}

/// How a character is spelled inside a JSON text.
#[verifier::opaque]
pub open spec fn escape_of(c: char) -> Seq<char> {
    let n = c as u32;
    if c == '"' || c == '\\' {
        seq!['\\', c]
    } else if n == 0x8 {
        seq!['\\', 'b']
    } else if n == 0x9 {
        seq!['\\', 't']
    } else if n == 0xa {
        seq!['\\', 'n']
    } else if n == 0xc {
        seq!['\\', 'f']
    } else if n == 0xd {
        seq!['\\', 'r']
    } else if n < 0x20 {
        seq!['\\', 'u', '0', '0', hex_digit(n as nat / 16), hex_digit(n as nat % 16)]
    } else {
        seq![c]
    }
}

/// How a text is spelled in JSON, without its quotes.
pub open spec fn escaped(s: Seq<char>) -> Seq<char>
    decreases s.len(),
{
    if s.len() == 0 {
        Seq::empty()
    } else {
        escape_of(s[0]) + escaped(s.skip(1))
    }
}

/// How a text is spelled in JSON.
pub open spec fn quoted(s: Seq<char>) -> Seq<char> {
    seq!['"'] + escaped(s) + seq!['"']
}

/// `c` does not stand in `s`.
pub open spec fn lacks(s: Seq<char>, c: char) -> bool {
    forall|i: int| 0 <= i < s.len() ==> #[trigger] s[i] != c
}

/// The document that `serde_json::from_str` reads from a text; none where it
/// reports an error.
pub uninterp spec fn json_parsed(text: Seq<char>) -> Option<JsonModel>;

/// The document that `serde_json::from_slice` reads from bytes; none where it
/// reports an error.
pub uninterp spec fn json_parsed_bytes(bytes: Seq<u8>) -> Option<JsonModel>;

/// The compact text that `serde_json::to_string` writes for a document.
pub uninterp spec fn json_written(json: JsonModel) -> Seq<char>;

/// Moves a `serde_json::Value` into plain values, variant by variant.
#[verifier::external_body]
fn from_value(value: serde_json::Value) -> Json {
    match value {
        serde_json::Value::Null => Json::Null,
        serde_json::Value::Bool(b) => Json::Bool(b),
        serde_json::Value::Number(n) => Json::Number(n),
        serde_json::Value::String(s) => Json::Text(s),
        serde_json::Value::Array(items) => Json::List(items.into_iter().map(from_value).collect()),
        serde_json::Value::Object(fields) => Json::Object(
            fields.into_iter().map(|(name, value)| (name, from_value(value))).collect(),
        ),
    }
}

/// Moves plain values back into a `serde_json::Value`, variant by variant.
#[verifier::external_body]
fn to_value(json: Json) -> serde_json::Value {
    match json {
        Json::Null => serde_json::Value::Null,
        Json::Bool(b) => serde_json::Value::Bool(b),
        Json::Number(n) => serde_json::Value::Number(n),
        Json::Text(s) => serde_json::Value::String(s),
        Json::List(items) => serde_json::Value::Array(items.into_iter().map(to_value).collect()),
        Json::Object(fields) => serde_json::Value::Object(
            fields.into_iter().map(|(name, json)| (name, to_value(json))).collect(),
        ),
    }
}

/// `serde_json::from_str` on a whole text. What it reads is a function of the
/// text. A text value stands between two quotes and every character of it takes
/// at least one character of the input, so each is shorter than the input. Where the
/// input is one text value without a backslash, it spells that value as it is.
#[verifier::external_body]
pub(crate) fn parse_json(text: &str) -> (result: Option<Json>)
    ensures
        result is Some == json_parsed(text@) is Some,
        result matches Some(json) ==> Some(model(json)) == json_parsed(text@) && longest(
            model(json),
        ) < text@.len(),
        lacks(text@, '\\') && result is Some && result->0 is Text ==> escaped(result->0->Text_0@)
            == result->0->Text_0@,
{
    serde_json::from_str::<serde_json::Value>(text).ok().map(from_value)
}

/// `serde_json::from_slice` on whole bytes. What it reads is a function of them.
#[verifier::external_body]
pub(crate) fn parse_json_bytes(bytes: &[u8]) -> (result: Option<Json>)
    ensures
        result is Some == json_parsed_bytes(bytes@) is Some,
        result matches Some(json) ==> Some(model(json)) == json_parsed_bytes(bytes@),
{
    serde_json::from_slice::<serde_json::Value>(bytes).ok().map(from_value)
}

/// `serde_json::to_string` on a document. What it writes is a function of the
/// document. A text value is written between two quotes, with a backslash before
/// quotes, backslashes and control characters.
#[verifier::external_body]
pub(crate) fn write_json(json: Json) -> (result: String)
    ensures
        result@ == json_written(model(json)),
        json matches Json::Text(text) ==> result@ == quoted(text@),
{
    serde_json::to_string(&to_value(json)).unwrap_or_default()
}

/// Texts by their names; of two with one name the later counts.
pub open spec fn text_map(fields: Seq<(String, String)>) -> Map<Seq<char>, Seq<char>>
    decreases fields.len(),
{
    if fields.len() == 0 {
        Map::empty()
    } else {
        text_map(fields.drop_last()).insert(fields.last().0@, fields.last().1@)
    }
}

/// The texts that `serde_json::from_slice` reads from bytes as a map of strings; none
/// where it reports an error.
pub uninterp spec fn json_texts(bytes: Seq<u8>) -> Option<Map<Seq<char>, Seq<char>>>;

/// `serde_json::from_slice` on whole bytes, read as a map from strings to strings.
/// What it reads is a function of them.
#[verifier::external_body]
pub(crate) fn parse_texts(bytes: &[u8]) -> (result: Option<Vec<(String, String)>>)
    ensures
        result is Some == json_texts(bytes@) is Some,
        result matches Some(fields) ==> Some(text_map(fields@)) == json_texts(bytes@),
{
    serde_json::from_slice::<BTreeMap<String, String>>(bytes).ok().map(
        |texts| texts.into_iter().collect(),
    )
}

/// The indented text that `serde_json::to_vec_pretty` writes for a map of strings.
pub uninterp spec fn json_pretty(texts: Map<Seq<char>, Seq<char>>) -> Seq<u8>;

/// No two fields have one name.
pub open spec fn names_differ(fields: Seq<(String, String)>) -> bool {
    forall|i: int, j: int|
        0 <= i < j < fields.len() ==> (#[trigger] fields[i]).0@ != (#[trigger] fields[j]).0@
}

/// `serde_json::to_vec_pretty` on a map from strings to strings, given by its fields,
/// no two of which have one name. What it writes is a function of the map, and
/// `serde_json::from_slice` reads the map back from it.
#[verifier::external_body]
pub(crate) fn write_texts(fields: Vec<(String, String)>) -> (result: Vec<u8>)
    requires
        names_differ(fields@),
    ensures
        result@ == json_pretty(text_map(fields@)),
        json_texts(result@) == Some(text_map(fields@)),
{
    serde_json::to_vec_pretty(&fields.into_iter().collect::<BTreeMap<String, String>>())
        .unwrap_or_default()
}

/// The value of the first field with a name; none where `json` is no object.
pub open spec fn field_model(json: JsonModel, name: Seq<char>) -> Option<JsonModel> {
    match json {
        JsonModel::Object(fields) => named_field(fields, name),
        _ => None,
    }
}

pub open spec fn named_field(fields: Seq<(Seq<char>, JsonModel)>, name: Seq<char>) -> Option<
    JsonModel,
>
    decreases fields.len(),
{
    if fields.len() == 0 {
        None
    } else if fields[0].0 == name {
        Some(fields[0].1)
    } else {
        named_field(fields.skip(1), name)
    }
}

/// Fields are modelled one by one.
pub proof fn fields_model_index(fields: Vec<(String, Json)>, n: nat)
    requires
        n <= fields@.len(),
    ensures
        fields_model(fields, n).len() == n,
        forall|i: int|
            0 <= i < n ==> #[trigger] fields_model(fields, n)[i] == (
                fields@[i].0@,
                model(fields@[i].1),
            ),
    decreases n,
{
    if n > 0 {
        fields_model_index(fields, (n - 1) as nat);
    }
}

/// Items are modelled one by one.
pub proof fn list_model_index(items: Vec<Json>, n: nat)
    requires
        n <= items@.len(),
    ensures
        list_model(items, n).len() == n,
        forall|i: int| 0 <= i < n ==> #[trigger] list_model(items, n)[i] == model(items@[i]),
    decreases n,
{
    if n > 0 {
        list_model_index(items, (n - 1) as nat);
    }
}

/// Looks up a field by its name.
pub fn field<'a>(json: &'a Json, name: &str) -> (result: Option<&'a Json>)
    ensures
        result is Some == field_model(model(*json), name@) is Some,
        result matches Some(found) ==> Some(model(*found)) == field_model(model(*json), name@),
{
    match json {
        Json::Object(fields) => {
            let ghost all = fields_model(*fields, fields@.len());
            proof {
                fields_model_index(*fields, fields@.len());
                assert(all.skip(0) =~= all);
            }
            let mut i: usize = 0;
            while i < fields.len()
                invariant
                    i <= fields@.len(),
                    all == fields_model(*fields, fields@.len()),
                    model(*json) == JsonModel::Object(all),
                    all.len() == fields@.len(),
                    forall|k: int|
                        0 <= k < all.len() ==> #[trigger] all[k] == (
                            fields@[k].0@,
                            model(fields@[k].1),
                        ),
                    named_field(all.skip(i as int), name@) == named_field(all, name@),
                decreases fields@.len() - i,
            {
                assert(all.skip(i as int)[0] == all[i as int]);
                if crate::text::same(fields[i].0.as_str(), name) {
                    return Some(&fields[i].1);
                }
                assert(all.skip(i as int).skip(1) =~= all.skip(i + 1));
                i += 1;
            }
            None
        },
        _ => None,
    }
}

} // verus!
