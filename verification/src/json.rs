//! JSON values as the settings logic reads them, and the two calls into
//! `serde_json` that turn bytes into such values and back.

use vstd::prelude::*;

verus! {

#[verifier::external_type_specification]
#[verifier::external_body]
pub struct ExSerdeJsonValue(serde_json::Value);

/// A JSON number, as `serde_json` keeps it: a non-negative integer, a negative
/// integer, or anything else, which is kept in the text `serde_json` prints for it.
#[derive(Clone, Debug, PartialEq, Eq)]
pub enum JsonNumber {
    Unsigned(u64),
    Negative(i64),
    Float(String),
}

/// A parsed JSON document. Object members keep the order the parser hands them
/// out in, which for `serde_json` is ascending key order.
#[derive(Debug)]
pub enum Json {
    Null,
    Bool(bool),
    Number(JsonNumber),
    String(String),
    Array(Vec<Json>),
    Object(Vec<(String, Json)>),
}

pub enum NumberModel {
    Unsigned(u64),
    Negative(i64),
    Float(Seq<char>),
}

/// What a `Json` value says, with strings as character sequences.
pub enum JsonModel {
    Null,
    Bool(bool),
    Number(NumberModel),
    String(Seq<char>),
    Array(Seq<JsonModel>),
    Object(Seq<(Seq<char>, JsonModel)>),
}

impl JsonNumber {
    pub open spec fn model(&self) -> NumberModel {
        match self {
            JsonNumber::Unsigned(value) => NumberModel::Unsigned(*value),
            JsonNumber::Negative(value) => NumberModel::Negative(*value),
            JsonNumber::Float(text) => NumberModel::Float(text@),
        }
    }
}

impl Json {
    pub open spec fn model(&self) -> JsonModel
        decreases self,
    {
        match self {
            Json::Null => JsonModel::Null,
            Json::Bool(value) => JsonModel::Bool(*value),
            Json::Number(number) => JsonModel::Number(number.model()),
            Json::String(text) => JsonModel::String(text@),
            Json::Array(items) => JsonModel::Array(models(items@)),
            Json::Object(members) => JsonModel::Object(member_models(members@)),
        }
    }
}

pub open spec fn models(items: Seq<Json>) -> Seq<JsonModel>
    decreases items,
{
    if items.len() == 0 {
        Seq::empty()
    } else {
        models(items.drop_last()).push(items.last().model())
    }
}

pub open spec fn member_models(members: Seq<(String, Json)>) -> Seq<(Seq<char>, JsonModel)>
    decreases members,
{
    if members.len() == 0 {
        Seq::empty()
    } else {
        member_models(members.drop_last()).push((members.last().0@, members.last().1.model()))
    }
}

/// `a` sorts before `b` in the order of `String`'s `Ord`: code point by code
/// point, a prefix first.
pub open spec fn key_before(a: Seq<char>, b: Seq<char>) -> bool
    decreases a.len(),
{
    if a.len() == 0 {
        b.len() > 0
    } else if b.len() == 0 {
        false
    } else if a[0] != b[0] {
        (a[0] as u32) < (b[0] as u32)
    } else {
        key_before(a.drop_first(), b.drop_first())
    }
}

/// A value `serde_json` writes out and reads back unchanged: every object lists
/// its keys in ascending order, each once, and every number is an integer,
/// held as negative only when it is below zero.
pub open spec fn canonical(value: JsonModel) -> bool
    decreases value,
{
    match value {
        JsonModel::Number(number) => match number {
            NumberModel::Unsigned(_) => true,
            NumberModel::Negative(n) => n < 0,
            NumberModel::Float(_) => false,
        },
        JsonModel::Array(items) => forall|i: int| 0 <= i < items.len() ==> canonical(#[trigger] items[i]),
        JsonModel::Object(members) => {
            &&& forall|i: int, j: int| 0 <= i < j < members.len() ==> key_before(#[trigger] members[i].0, #[trigger] members[j].0)
            &&& forall|i: int| 0 <= i < members.len() ==> canonical(#[trigger] members[i].1)
        },
        _ => true,
    }
}

/// Arrays and objects nest at most `limit` deep.
pub open spec fn within_depth(value: JsonModel, limit: nat) -> bool
    decreases value,
{
    match value {
        JsonModel::Array(items) => limit > 0 && forall|i: int|
            0 <= i < items.len() ==> within_depth(#[trigger] items[i], (limit - 1) as nat),
        JsonModel::Object(members) => limit > 0 && forall|i: int|
            0 <= i < members.len() ==> within_depth(#[trigger] members[i].1, (limit - 1) as nat),
        _ => true,
    }
}

/// What `serde_json::from_slice::<serde_json::Value>` makes of `bytes`, or `None`
/// when it reports an error.
pub uninterp spec fn json_of_bytes(bytes: Seq<u8>) -> Option<JsonModel>;

/// What `serde_json::to_vec_pretty` writes for `value`.
pub uninterp spec fn pretty_bytes(value: JsonModel) -> Seq<u8>;

/// What `serde_json`'s pretty serializer writes for a map whose entries are
/// handed to it one by one, in the order of `members`.
pub uninterp spec fn pretty_map_bytes(members: Seq<(Seq<char>, JsonModel)>) -> Seq<u8>;

/// No two members share a key.
pub open spec fn distinct_keys(members: Seq<(Seq<char>, JsonModel)>) -> bool {
    forall|i: int, j: int| 0 <= i < j < members.len() ==> #[trigger] members[i].0 != #[trigger] members[j].0
}

/// The members come in strictly ascending key order.
pub open spec fn ascending_keys(members: Seq<(Seq<char>, JsonModel)>) -> bool {
    forall|i: int, j: int| 0 <= i < j < members.len() ==> key_before(#[trigger] members[i].0, #[trigger] members[j].0)
}

/// Builds the value of a parsed `serde_json::Value`, variant by variant.
#[verifier::external_body]
fn json_from_value(value: serde_json::Value) -> Json {
    match value {
        serde_json::Value::Null => Json::Null,
        serde_json::Value::Bool(flag) => Json::Bool(flag),
        serde_json::Value::Number(number) => Json::Number(match (number.as_u64(), number.as_i64()) {
            (Some(unsigned), _) => JsonNumber::Unsigned(unsigned),
            (None, Some(negative)) => JsonNumber::Negative(negative),
            (None, None) => JsonNumber::Float(number.to_string()),
        }),
        serde_json::Value::String(text) => Json::String(text),
        serde_json::Value::Array(items) => Json::Array(items.into_iter().map(json_from_value).collect()),
        serde_json::Value::Object(members) => Json::Object(members.into_iter().map(|(key, item)| (key, json_from_value(item))).collect()),
    }
}

/// Builds the `serde_json::Value` of a value, variant by variant.
#[verifier::external_body]
fn value_from_json(json: &Json) -> serde_json::Value {
    match json {
        Json::Null => serde_json::Value::Null,
        Json::Bool(flag) => serde_json::Value::Bool(*flag),
        Json::Number(JsonNumber::Unsigned(unsigned)) => serde_json::Value::from(*unsigned),
        Json::Number(JsonNumber::Negative(negative)) => serde_json::Value::from(*negative),
        Json::Number(JsonNumber::Float(text)) => serde_json::from_str(text).unwrap_or(serde_json::Value::Null),
        Json::String(text) => serde_json::Value::String(text.clone()),
        Json::Array(items) => serde_json::Value::Array(items.iter().map(value_from_json).collect()),
        Json::Object(members) => serde_json::Value::Object(members.iter().map(|(key, item)| (key.clone(), value_from_json(item))).collect()),
    }
}

/// `serde_json::from_slice` into a `serde_json::Value`. The contract claims only
/// that the outcome is the one `json_of_bytes` names for these bytes; the error
/// is handed on as the message `serde_json` gives for it.
#[verifier::external_body]
pub(crate) fn parse_json(bytes: &[u8]) -> (parsed: Result<Json, String>)
    ensures
        parsed matches Ok(json) ==> json_of_bytes(bytes@) == Some(json.model()),
        parsed is Err <==> json_of_bytes(bytes@) is None,
{
    serde_json::from_slice::<serde_json::Value>(bytes).map(json_from_value).map_err(|error| error.to_string())
}

/// `serde_json::to_vec_pretty` of the value. The contract claims that the bytes
/// are the ones `pretty_bytes` names, and two facts the `serde_json` source
/// shows: writing a `Value` cannot fail, since its map keys are strings, and
/// reading the output back, followed by a newline, gives the same value when
/// its keys are already in the order `serde_json`'s map keeps them in, it
/// holds no floating-point number, and it nests less deep than the parser's
/// recursion limit of 128 levels.
#[verifier::external_body]
pub(crate) fn pretty_json(json: &Json) -> (bytes: Vec<u8>)
    ensures
        bytes@ == pretty_bytes(json.model()),
        canonical(json.model()) && within_depth(json.model(), 127) ==> json_of_bytes(bytes@.push(10u8)) == Some(
            json.model(),
        ),
{
    serde_json::to_vec_pretty(&value_from_json(json)).unwrap_or_default()
}

/// `serde::Serializer::collect_map` on a `serde_json::Serializer::pretty`: the
/// members written as one JSON object, in the order given, with the formatting
/// of `serde_json::to_vec_pretty`. The contract claims that the bytes are the
/// ones `pretty_map_bytes` names, and what the `serde_json` source shows of
/// reading them back, followed by a newline: when no key repeats, no value
/// holds a floating-point number or an object whose keys are out of order, and
/// nothing nests as deep as the parser's recursion limit of 128 levels, the
/// parser's map gives the same members in ascending key order. Writing into a
/// `Vec` cannot fail, and every key is a string.
#[verifier::external_body]
pub(crate) fn pretty_map(members: &Vec<(String, Json)>) -> (bytes: Vec<u8>)
    ensures
        bytes@ == pretty_map_bytes(member_models(members@)),
        ({
            let m = member_models(members@);
            distinct_keys(m) && (forall|i: int| 0 <= i < m.len() ==> canonical(#[trigger] m[i].1) && within_depth(m[i].1, 126))
                ==> forall|s: Seq<(Seq<char>, JsonModel)>| ascending_keys(s) && #[trigger] s.to_multiset() == m.to_multiset()
                ==> json_of_bytes(bytes@.push(10u8)) == Some(JsonModel::Object(s))
        }),
{
    let mut bytes = Vec::new();
    let mut serializer = serde_json::Serializer::pretty(&mut bytes);
    let _ = serde::Serializer::collect_map(&mut serializer, members.iter().map(|(key, item)| (key, value_from_json(item))));
    bytes
}

} // verus!
