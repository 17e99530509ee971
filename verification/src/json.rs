//! JSON documents: what they hold, how they are read and how they are written.
//!
//! Parsing and printing are `serde_json`'s. The rest of the crate works on [`Json`], a plain tree
//! that holds of a document what the plugins look at, and states its contracts over
//! [`JsonModel`], the mathematical value of such a tree.

use vstd::prelude::*;

verus! {

/// A JSON value.
#[derive(Debug, PartialEq, Eq)]
pub enum Json {
    Null,
    Bool(bool),
    /// A number: its value where that is an integer from 0 to `u64::MAX`, else nothing.
    Number(Option<u64>),
    Text(String),
    Array(Vec<Json>),
    /// The fields of an object. Of two fields with one name the later counts.
    Object(Vec<(String, Json)>),
}

/// The mathematical value of a JSON value.
pub enum JsonModel {
    Null,
    Bool(bool),
    Number(Option<u64>),
    Text(Seq<char>),
    Array(Seq<JsonModel>),
    Object(Map<Seq<char>, JsonModel>),
}

/// The field of an object that has the name `key`.
pub open spec fn field(document: JsonModel, key: Seq<char>) -> Option<JsonModel> {
    match document {
        JsonModel::Object(fields) => if fields.contains_key(key) {
            Some(fields[key])
        } else {
            None
        },
        _ => None,
    }
}

/// The integer that a JSON value denotes, if it is a number from 0 to `u64::MAX`.
pub open spec fn unsigned(document: JsonModel) -> Option<u64> {
    match document {
        JsonModel::Number(value) => value,
        _ => None,
    }
}

/// The truth value that a JSON value denotes, if it is one.
pub open spec fn boolean(document: JsonModel) -> Option<bool> {
    match document {
        JsonModel::Bool(value) => Some(value),
        _ => None,
    }
}

/// A JSON value all of whose numbers are integers from 0 to `u64::MAX`.
pub open spec fn integral(document: JsonModel) -> bool
    decreases document,
{
    match document {
        JsonModel::Number(value) => value is Some,
        JsonModel::Array(items) => forall|i: int|
            0 <= i < items.len() ==> integral(#[trigger] items[i]),
        JsonModel::Object(fields) => forall|key: Seq<char>|
            fields.contains_key(key) ==> integral(#[trigger] fields[key]),
        _ => true,
    }
}

/// A JSON value that is a truth value, an integer from 0 to `u64::MAX` or a list of such integers.
pub open spec fn flat(document: JsonModel) -> bool {
    match document {
        JsonModel::Bool(_) => true,
        JsonModel::Number(value) => value is Some,
        JsonModel::Array(items) => forall|i: int|
            0 <= i < items.len() ==> unsigned(#[trigger] items[i]) is Some,
        _ => false,
    }
}

/// An object whose fields are all flat.
pub open spec fn flat_record(document: JsonModel) -> bool {
    match document {
        JsonModel::Object(fields) => forall|key: Seq<char>|
            fields.contains_key(key) ==> flat(#[trigger] fields[key]),
        _ => false,
    }
}

impl Json {
    pub open spec fn model(self) -> JsonModel
        decreases self,
    {
        match self {
            Json::Null => JsonModel::Null,
            Json::Bool(value) => JsonModel::Bool(value),
            Json::Number(value) => JsonModel::Number(value),
            Json::Text(text) => JsonModel::Text(text@),
            Json::Array(items) => JsonModel::Array(
                Seq::new(
                    items@.len(),
                    |i: int|
                        if 0 <= i < items@.len() {
                            items@[i].model()
                        } else {
                            JsonModel::Null
                        },
                ),
            ),
            Json::Object(fields) => JsonModel::Object(fields_model(fields@)),
        }
    }
}

/// The fields of an object by name. A later field replaces an earlier one of the same name.
pub open spec fn fields_model(fields: Seq<(String, Json)>) -> Map<Seq<char>, JsonModel>
    decreases fields,
{
    if fields.len() == 0 {
        Map::empty()
    } else {
        fields_model(fields.subrange(0, fields.len() - 1)).insert(
            fields[fields.len() - 1].0@,
            fields[fields.len() - 1].1.model(),
        )
    }
}

/// Adding a field to an object puts its value under its name.
pub proof fn lemma_push_field(fields: Seq<(String, Json)>, name: String, value: Json)
    ensures
        fields_model(fields.push((name, value))) == fields_model(fields).insert(
            name@,
            value.model(),
        ),
{
    let more = fields.push((name, value));
    assert(more.subrange(0, more.len() - 1) =~= fields);
}

impl Json {
    /// The field of an object that has the name `key`.
    pub fn get(&self, key: &str) -> (found: Option<&Json>)
        ensures
            match found {
                Some(value) => field(self.model(), key@) == Some(value.model()),
                None => field(self.model(), key@) is None,
            },
    {
        match self {
            Json::Object(fields) => {
                let wanted: String = key.to_string();
                let mut i: usize = fields.len();
                assert(fields@.subrange(0, i as int) =~= fields@);
                while i > 0
                    invariant
                        i <= fields@.len(),
                        wanted@ == key@,
                        self.model() == JsonModel::Object(fields_model(fields@)),
                        fields_model(fields@.subrange(0, i as int)).contains_key(key@)
                            == fields_model(fields@).contains_key(key@),
                        fields_model(fields@.subrange(0, i as int))[key@]
                            == fields_model(fields@)[key@],
                    decreases i,
                {
                    i -= 1;
                    proof {
                        let longer = fields@.subrange(0, i + 1);
                        assert(longer.subrange(0, i as int) =~= fields@.subrange(0, i as int));
                        assert(longer[i as int] == fields@[i as int]);
                    }
                    if fields[i].0 == wanted {
                        return Some(&fields[i].1);
                    }
                }
                None
            },
            _ => None,
        }
    }
}

impl Json {
    /// The integer that this value denotes, if it is a number from 0 to `u64::MAX`.
    pub fn as_u64(&self) -> (value: Option<u64>)
        ensures
            value == unsigned(self.model()),
    {
        match self {
            Json::Number(value) => *value,
            _ => None,
        }
    }

    /// The truth value that this value denotes, if it is one.
    pub fn as_bool(&self) -> (value: Option<bool>)
        ensures
            value == boolean(self.model()),
    {
        match self {
            Json::Bool(value) => Some(*value),
            _ => None,
        }
    }

    /// The items of this value, if it is an array.
    pub fn as_array(&self) -> (items: Option<&Vec<Json>>)
        ensures
            match items {
                Some(items) => self.model() == JsonModel::Array(
                    Seq::new(items@.len(), |i: int| items@[i].model()),
                ),
                None => self.model() !is Array,
            },
    {
        match self {
            Json::Array(items) => {
                assert(self.model()->Array_0 =~= Seq::new(
                    items@.len(),
                    |i: int| items@[i].model(),
                ));
                Some(items)
            },
            _ => None,
        }
    }
}

/// A flat record has no numbers but integers from 0 to `u64::MAX`.
pub proof fn lemma_flat_record_is_integral(document: JsonModel)
    requires
        flat_record(document),
    ensures
        integral(document),
{
    let fields = document->Object_0;
    assert forall|key: Seq<char>| fields.contains_key(key) implies integral(
        #[trigger] fields[key],
    ) by {
        assert(flat(fields[key]));
        if let JsonModel::Array(items) = fields[key] {
            assert forall|i: int| 0 <= i < items.len() implies integral(#[trigger] items[i]) by {
                assert(unsigned(items[i]) is Some);
            }
        }
    }
}

/// A parsed document as `serde_json` holds it.
#[verifier::external_type_specification]
#[verifier::external_body]
pub struct ExValue(serde_json::Value);

/// Why `serde_json` did not accept a document.
#[verifier::external_type_specification]
#[verifier::external_body]
pub struct ExError(serde_json::Error);

/// What a `serde_json::Value` holds: its own variant and, inside an array or an object, the items
/// or the fields by name.
pub uninterp spec fn value_model(value: serde_json::Value) -> JsonModel;

/// What `serde_json::from_slice` reads from `bytes`, or nothing where it reports an error.
pub uninterp spec fn parsed_bytes(bytes: Seq<u8>) -> Option<JsonModel>;

/// What `serde_json::from_str` reads from `text`, or nothing where it reports an error.
pub uninterp spec fn parsed_text(text: Seq<char>) -> Option<JsonModel>;

/// The text that a `serde_json::Value` prints as, for a value without negative or fractional
/// numbers.
pub uninterp spec fn printed(document: JsonModel) -> Seq<char>;

/// Calls `serde_json::from_slice` for a `serde_json::Value`. The call accepts `bytes` or not, and
/// reads a document from them, by the bytes alone.
#[verifier::external_body]
fn value_from_slice(bytes: &[u8]) -> (result: Result<serde_json::Value, serde_json::Error>)
    ensures
        match result {
            Ok(value) => parsed_bytes(bytes@) == Some(value_model(value)),
            Err(_) => parsed_bytes(bytes@) is None,
        },
{
    serde_json::from_slice::<serde_json::Value>(bytes)
}

/// Calls `serde_json::from_str` for a `serde_json::Value`. The call accepts `text` or not, and
/// reads a document from it, by the text alone.
#[verifier::external_body]
fn value_from_str(text: &str) -> (result: Result<serde_json::Value, serde_json::Error>)
    ensures
        match result {
            Ok(value) => parsed_text(text@) == Some(value_model(value)),
            Err(_) => parsed_text(text@) is None,
        },
{
    serde_json::from_str::<serde_json::Value>(text)
}

/// Calls `to_string` on a `serde_json::Value`. The text depends on what the value holds alone.
/// Where the value is an object of integers, truth values and lists of integers, both parsers
/// read from the text what was printed.
#[verifier::external_body]
fn value_to_string(value: &serde_json::Value) -> (text: String)
    requires
        integral(value_model(*value)),
    ensures
        text@ == printed(value_model(*value)),
        flat_record(value_model(*value)) ==> parsed_text(text@) == Some(value_model(*value)),
        flat_record(value_model(*value)) ==> parsed_bytes(vstd::utf8::encode_utf8(text@)) == Some(
            value_model(*value),
        ),
{
    value.to_string()
}

/// Takes a `serde_json::Value` apart, variant by variant. A number keeps what
/// `serde_json::Number::as_u64` says of it; the fields of an object come out of `serde_json::Map`
/// one for each name.
#[verifier::external_body]
fn json_from_value(value: serde_json::Value) -> (json: Json)
    ensures
        json.model() == value_model(value),
{
    match value {
        serde_json::Value::Null => Json::Null,
        serde_json::Value::Bool(value) => Json::Bool(value),
        serde_json::Value::Number(number) => Json::Number(number.as_u64()),
        serde_json::Value::String(text) => Json::Text(text),
        serde_json::Value::Array(items) =>
            Json::Array(items.into_iter().map(json_from_value).collect()),
        serde_json::Value::Object(fields) =>
            Json::Object(fields.into_iter().map(|(k, v)| (k, json_from_value(v))).collect()),
    }
}

/// Puts a `serde_json::Value` together, variant by variant, with `From` of `serde_json` for
/// numbers and texts. The fields of an object go into a `serde_json::Map` by `Map::insert`, one
/// after the other; inserting under a name that is present replaces the value.
#[verifier::external_body]
fn value_from_json(json: &Json) -> (value: serde_json::Value)
    requires
        integral(json.model()),
    ensures
        value_model(value) == json.model(),
{
    match json {
        Json::Null => serde_json::Value::Null,
        Json::Bool(value) => serde_json::Value::Bool(*value),
        Json::Number(number) => serde_json::Value::from(*number),
        Json::Text(text) => serde_json::Value::from(text.as_str()),
        Json::Array(items) =>
            serde_json::Value::Array(items.iter().map(value_from_json).collect()),
        Json::Object(fields) => {
            let mut map = serde_json::Map::new();
            for (name, value) in fields.iter() {
                map.insert(name.clone(), value_from_json(value));
            }
            serde_json::Value::Object(map)
        },
    }
}

/// A text or a run of bytes that is no JSON document.
#[derive(Clone, Copy, Debug, PartialEq, Eq, Structural)]
pub struct InvalidJson;

/// Reads a JSON document from bytes.
pub fn parse_bytes(bytes: &[u8]) -> (result: Result<Json, InvalidJson>)
    ensures
        match result {
            Ok(json) => parsed_bytes(bytes@) == Some(json.model()),
            Err(InvalidJson) => parsed_bytes(bytes@) is None,
        },
{
    match value_from_slice(bytes) {
        Ok(value) => Ok(json_from_value(value)),
        Err(_) => Err(InvalidJson),
    }
}

/// Reads a JSON document from a text.
pub fn parse_text(text: &str) -> (result: Result<Json, InvalidJson>)
    ensures
        match result {
            Ok(json) => parsed_text(text@) == Some(json.model()),
            Err(InvalidJson) => parsed_text(text@) is None,
        },
{
    match value_from_str(text) {
        Ok(value) => Ok(json_from_value(value)),
        Err(_) => Err(InvalidJson),
    }
}

/// The bytes of a JSON document as it is printed, without white space between its parts.
pub fn print_bytes(json: &Json) -> (bytes: Vec<u8>)
    requires
        integral(json.model()),
    ensures
        bytes@ == vstd::utf8::encode_utf8(printed(json.model())),
        flat_record(json.model()) ==> parsed_bytes(bytes@) == Some(json.model()),
        flat_record(json.model()) ==> parsed_text(printed(json.model())) == Some(json.model()),
{
    let value = value_from_json(json);
    let text = value_to_string(&value);
    vstd::slice::slice_to_vec(text.as_str().as_bytes())
}

} // verus!
