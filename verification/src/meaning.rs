//! What the words of the contracts come to, written out in bytes, numbers, list positions and
//! field names.

use vstd::prelude::*;

use crate::bytes::ByteOrder;
use crate::json::{Json, JsonModel};
use crate::prefix_delete_factory::PrefixDeleteFilter;
use crate::side_plugin_ex::{
    CompFilterFactoryPluginEntry, CompPluginEntry, MergePluginEntry, SliceTransformPluginEntry,
};

verus! {

/// Four bytes denote the number whose base-256 digits they are, most significant first.
pub proof fn law_value_of_four_bytes(bytes: Seq<u8>)
    requires
        bytes.len() == 4,
    ensures
        crate::bytes::be_value(bytes) == bytes[0] * 0x100_0000 + bytes[1] * 0x1_0000 + bytes[2]
            * 0x100 + bytes[3],
{
    reveal_with_fuel(crate::bytes::be_value, 5);
    let three = bytes.drop_last();
    let two = three.drop_last();
    let one = two.drop_last();
    assert(three.last() == bytes[2]);
    assert(two.last() == bytes[1]);
    assert(one.last() == bytes[0]);
    assert(one.drop_last().len() == 0);
}

/// Eight bytes denote the number whose base-256 digits they are: most significant first in the
/// order `Big`, least significant first in the order `Little`.
pub proof fn law_value_of_eight_bytes(order: ByteOrder, bytes: Seq<u8>)
    requires
        bytes.len() == 8,
    ensures
        order is Big ==> crate::bytes::ordered_value(order, bytes) == bytes[0]
            * 0x100_0000_0000_0000 + bytes[1] * 0x1_0000_0000_0000 + bytes[2] * 0x100_0000_0000
            + bytes[3] * 0x1_0000_0000 + bytes[4] * 0x100_0000 + bytes[5] * 0x1_0000 + bytes[6]
            * 0x100 + bytes[7],
        order is Little ==> crate::bytes::ordered_value(order, bytes) == bytes[7]
            * 0x100_0000_0000_0000 + bytes[6] * 0x1_0000_0000_0000 + bytes[5] * 0x100_0000_0000
            + bytes[4] * 0x1_0000_0000 + bytes[3] * 0x100_0000 + bytes[2] * 0x1_0000 + bytes[1]
            * 0x100 + bytes[0],
{
    lemma_eight_digits(bytes);
    lemma_eight_digits(bytes.reverse());
}

proof fn lemma_eight_digits(bytes: Seq<u8>)
    requires
        bytes.len() == 8,
    ensures
        crate::bytes::be_value(bytes) == bytes[0] * 0x100_0000_0000_0000 + bytes[1]
            * 0x1_0000_0000_0000 + bytes[2] * 0x100_0000_0000 + bytes[3] * 0x1_0000_0000 + bytes[4]
            * 0x100_0000 + bytes[5] * 0x1_0000 + bytes[6] * 0x100 + bytes[7],
{
    let seven = bytes.drop_last();
    let six = seven.drop_last();
    let five = six.drop_last();
    let four = five.drop_last();
    law_value_of_four_bytes(four);
    assert(crate::bytes::be_value(five) == crate::bytes::be_value(four) * 256 + bytes[4]);
    assert(crate::bytes::be_value(six) == crate::bytes::be_value(five) * 256 + bytes[5]);
    assert(crate::bytes::be_value(seven) == crate::bytes::be_value(six) * 256 + bytes[6]);
    assert(crate::bytes::be_value(bytes) == crate::bytes::be_value(seven) * 256 + bytes[7]);
}

/// The four bytes of a number are its base-256 digits, most significant first.
pub proof fn law_four_bytes_of_value(value: u32)
    ensures
        crate::bytes::be_bytes(value as nat, 4) == seq![
            (value / 0x100_0000) as u8,
            (value / 0x1_0000 % 0x100) as u8,
            (value / 0x100 % 0x100) as u8,
            (value % 0x100) as u8,
        ],
{
    reveal_with_fuel(crate::bytes::be_bytes, 5);
    assert(crate::bytes::be_bytes(value as nat, 4) =~= seq![
        (value / 0x100_0000) as u8,
        (value / 0x1_0000 % 0x100) as u8,
        (value / 0x100 % 0x100) as u8,
        (value % 0x100) as u8,
    ]);
}

/// The eight bytes of a number are its base-256 digits: most significant first in the order `Big`,
/// least significant first in the order `Little`.
pub proof fn law_eight_bytes_of_value(order: ByteOrder, value: u64)
    ensures
        ({
            let bytes = crate::bytes::ordered_bytes(order, value as nat, 8);
            &&& bytes.len() == 8
            &&& order is Big ==> value == bytes[0] * 0x100_0000_0000_0000 + bytes[1]
                * 0x1_0000_0000_0000 + bytes[2] * 0x100_0000_0000 + bytes[3] * 0x1_0000_0000
                + bytes[4] * 0x100_0000 + bytes[5] * 0x1_0000 + bytes[6] * 0x100 + bytes[7]
            &&& order is Little ==> value == bytes[7] * 0x100_0000_0000_0000 + bytes[6]
                * 0x1_0000_0000_0000 + bytes[5] * 0x100_0000_0000 + bytes[4] * 0x1_0000_0000
                + bytes[3] * 0x100_0000 + bytes[2] * 0x1_0000 + bytes[1] * 0x100 + bytes[0]
        }),
{
    crate::bytes::lemma_span_8();
    crate::bytes::lemma_ordered_round_trip(order, value as nat, 8);
    law_value_of_eight_bytes(order, crate::bytes::ordered_bytes(order, value as nat, 8));
}

/// A window shows the bytes of the data where it lies, and zeros past the end.
pub proof fn law_window_shows_the_data(data: Seq<u8>, at: int, width: nat, i: int)
    requires
        0 <= at,
        0 <= i < width,
    ensures
        crate::bytes::window(data, at, width).len() == width,
        at + i < data.len() ==> crate::bytes::window(data, at, width)[i] == data[at + i],
        at + i >= data.len() ==> crate::bytes::window(data, at, width)[i] == 0,
{
}

/// The prefix of a key is the number whose base-256 digits are its first four bytes, most
/// significant first. Only a shorter key has none.
pub proof fn law_key_prefix_in_bytes(key: Seq<u8>)
    ensures
        key.len() < 4 ==> crate::prefixes::key_prefix(key) is None,
        key.len() >= 4 ==> (crate::prefixes::key_prefix(key) matches Some(prefix) && prefix == key[0]
            * 0x100_0000 + key[1] * 0x1_0000 + key[2] * 0x100 + key[3]),
{
    if key.len() >= 4 {
        law_value_of_four_bytes(key.take(4));
    }
}

/// A key matches exactly if it has four bytes or more and the set holds the number whose base-256
/// digits are its first four bytes, most significant first.
pub proof fn law_match_in_bytes(prefixes: Set<u32>, key: Seq<u8>)
    ensures
        crate::prefixes::matches_prefix(prefixes, key) <==> (key.len() >= 4 && prefixes.contains(
            (key[0] * 0x100_0000 + key[1] * 0x1_0000 + key[2] * 0x100 + key[3]) as u32,
        )),
{
    law_key_prefix_in_bytes(key);
}

/// Deciding on a key keeps the prefixes, and raises the count by one exactly if the set holds the
/// number whose base-256 digits are the first four bytes of the key.
pub proof fn law_decision_in_bytes(before: PrefixDeleteFilter, key: Seq<u8>, after: PrefixDeleteFilter)
    ensures
        crate::prefix_delete_factory::after_key(before, key, after) <==> {
            &&& after.prefixes() == before.prefixes()
            &&& after.deleted() - before.deleted() == (if key.len() >= 4
                && before.prefixes().contains(
                (key[0] * 0x100_0000 + key[1] * 0x1_0000 + key[2] * 0x100 + key[3]) as u32,
            ) {
                1int
            } else {
                0
            })
        },
{
    law_match_in_bytes(before.prefixes(), key);
}

/// The end of a run adds its count to the total, and takes off 2^64 where the sum does not fit.
pub proof fn law_total_adds_up(total: u64, local: u64)
    ensures
        total + local <= u64::MAX ==> crate::prefix_delete_factory::total_after(total, local)
            == total + local,
        total + local > u64::MAX ==> crate::prefix_delete_factory::total_after(total, local)
            == total + local - 0x1_0000_0000_0000_0000,
{
}

/// The list of a set holds each member once, the smaller before the larger, and nothing else.
pub proof fn law_ascending_lists_the_set(prefixes: Set<u32>)
    ensures
        forall|i: int, j: int|
            0 <= i < j < crate::prefixes::ascending(prefixes).len() ==> crate::prefixes::ascending(
                prefixes,
            )[i] < crate::prefixes::ascending(prefixes)[j],
        forall|i: int|
            0 <= i < crate::prefixes::ascending(prefixes).len() ==> prefixes.contains(
                #[trigger] crate::prefixes::ascending(prefixes)[i],
            ),
        forall|p: u32| #[trigger]
            prefixes.contains(p) ==> exists|i: int|
                0 <= i < crate::prefixes::ascending(prefixes).len() && #[trigger]
                crate::prefixes::ascending(prefixes)[i] == p,
        crate::prefixes::ascending(prefixes).len() == prefixes.len(),
{
    let listed = crate::prefixes::ascending(prefixes);
    crate::prefixes::lemma_ascending(prefixes);
    assert forall|i: int| 0 <= i < listed.len() implies prefixes.contains(#[trigger] listed[i]) by {
        assert(listed.contains(listed[i]));
    }
    assert forall|p: u32| #[trigger] prefixes.contains(p) implies exists|i: int|
        0 <= i < listed.len() && #[trigger] listed[i] == p by {
        assert(listed.contains(p));
    }
}

/// The value of a JSON scalar is the scalar.
pub proof fn law_model_of_scalars(truth: bool, number: Option<u64>, text: String)
    ensures
        Json::Null.model() == JsonModel::Null,
        Json::Bool(truth).model() == JsonModel::Bool(truth),
        Json::Number(number).model() == JsonModel::Number(number),
        Json::Text(text).model() == JsonModel::Text(text@),
{
}

/// The value of a JSON array is the list of the values of its items, position by position.
pub proof fn law_model_of_array(items: Vec<Json>)
    ensures
        Json::Array(items).model() matches JsonModel::Array(values) && values.len() == items@.len()
            && forall|i: int|
            0 <= i < items@.len() ==> #[trigger] values[i] == items@[i].model(),
{
    reveal_with_fuel(Json::model, 2);
}

/// The value of a JSON object has a field under a name exactly if the object has one, and of
/// several fields under that name it is the last.
pub proof fn law_model_of_object(fields: Vec<(String, Json)>, name: Seq<char>)
    ensures
        Json::Object(fields).model() matches JsonModel::Object(values) && {
            &&& values.contains_key(name) <==> exists|i: int|
                0 <= i < fields@.len() && (#[trigger] fields@[i]).0@ == name
            &&& forall|i: int|
                0 <= i < fields@.len() && (#[trigger] fields@[i]).0@ == name && (forall|j: int|
                    i < j < fields@.len() ==> (#[trigger] fields@[j]).0@ != name)
                    ==> values[name] == fields@[i].1.model()
        },
{
    reveal_with_fuel(Json::model, 2);
    lemma_fields(fields@, name);
}

proof fn lemma_fields(fields: Seq<(String, Json)>, name: Seq<char>)
    ensures
        crate::json::fields_model(fields).contains_key(name) <==> exists|i: int|
            0 <= i < fields.len() && (#[trigger] fields[i]).0@ == name,
        forall|i: int|
            0 <= i < fields.len() && (#[trigger] fields[i]).0@ == name && (forall|j: int|
                i < j < fields.len() ==> (#[trigger] fields[j]).0@ != name)
                ==> crate::json::fields_model(fields)[name] == fields[i].1.model(),
    decreases fields.len(),
{
    if fields.len() > 0 {
        let shorter = fields.drop_last();
        let last = fields.last();
        lemma_fields(shorter, name);
        crate::json::lemma_push_field(shorter, last.0, last.1);
        assert(shorter.push((last.0, last.1)) =~= fields);
        assert(forall|i: int| 0 <= i < shorter.len() ==> shorter[i] == fields[i]);
        if last.0@ != name {
            if crate::json::fields_model(shorter).contains_key(name) {
                let i = choose|i: int| 0 <= i < shorter.len() && (#[trigger] shorter[i]).0@ == name;
                assert(fields[i].0@ == name);
            }
            if exists|i: int| 0 <= i < fields.len() && (#[trigger] fields[i]).0@ == name {
                let i = choose|i: int| 0 <= i < fields.len() && (#[trigger] fields[i]).0@ == name;
                assert(shorter[i].0@ == name);
            }
            assert forall|i: int|
                0 <= i < fields.len() && (#[trigger] fields[i]).0@ == name && (forall|j: int|
                    i < j < fields.len() ==> (#[trigger] fields[j]).0@ != name)
                implies crate::json::fields_model(fields)[name] == fields[i].1.model() by {
                assert(shorter[i].0@ == name);
                assert forall|j: int| i < j < shorter.len() implies (#[trigger] shorter[j]).0@
                    != name by {
                    assert(fields[j].0@ != name);
                }
            }
        } else {
            assert(fields[fields.len() - 1].0@ == name);
        }
    }
}

/// A document gives a field exactly if it is an object that has it, and then as it stands there.
pub proof fn law_field_of_document(document: JsonModel, name: Seq<char>)
    ensures
        crate::json::field(document, name) == (if document is Object
            && document->Object_0.contains_key(name) {
            Some(document->Object_0[name])
        } else {
            None
        }),
{
}

/// Exactly the numbers from 0 to `u64::MAX` are taken for integers, and exactly the truth values
/// for truth values, each for what it is.
pub proof fn law_scalars_are_taken_as_they_are(document: JsonModel, number: u64, truth: bool)
    ensures
        crate::json::unsigned(document) == Some(number) <==> document == JsonModel::Number(
            Some(number),
        ),
        crate::json::boolean(document) == Some(truth) <==> document == JsonModel::Bool(truth),
{
}

/// Every number from 0 to `u64::MAX` in a list names its low-order 32 bits, wherever it stands and
/// whatever stands around it, and nothing else is named.
pub proof fn law_every_number_is_listed(items: Seq<JsonModel>)
    ensures
        forall|i: int|
            0 <= i < items.len() && (#[trigger] items[i]) is Number && items[i]->Number_0 is Some
                ==> crate::params::listed_prefixes(items).contains(
                (items[i]->Number_0->0 % 0x1_0000_0000) as u32,
            ),
        forall|prefix: u32| #[trigger]
            crate::params::listed_prefixes(items).contains(prefix) ==> exists|i: int|
                0 <= i < items.len() && (#[trigger] items[i]) is Number && items[i]->Number_0 is Some
                    && items[i]->Number_0->0 % 0x1_0000_0000 == prefix,
{
    assert forall|i: int|
        0 <= i < items.len() && (#[trigger] items[i]) is Number && items[i]->Number_0
            is Some implies crate::params::listed_prefixes(items).contains(
        (items[i]->Number_0->0 % 0x1_0000_0000) as u32,
    ) by {
        assert(crate::params::names_prefix(
            items[i],
            (items[i]->Number_0->0 % 0x1_0000_0000) as u32,
        ));
    }
    assert forall|prefix: u32| #[trigger]
        crate::params::listed_prefixes(items).contains(prefix) implies exists|i: int|
        0 <= i < items.len() && (#[trigger] items[i]) is Number && items[i]->Number_0 is Some
            && items[i]->Number_0->0 % 0x1_0000_0000 == prefix by {
        let i = choose|i: int|
            0 <= i < items.len() && #[trigger] crate::params::names_prefix(items[i], prefix);
        assert(items[i] is Number);
    }
}

/// What a list names does not depend on the order of its items, nor on items that stand in it more
/// than once.
pub proof fn law_order_of_items_is_irrelevant(one: Seq<JsonModel>, other: Seq<JsonModel>)
    requires
        forall|item: JsonModel| one.contains(item) <==> other.contains(item),
    ensures
        crate::params::listed_prefixes(one) == crate::params::listed_prefixes(other),
{
    lemma_items_carry_over(one, other);
    lemma_items_carry_over(other, one);
    assert(crate::params::listed_prefixes(one) =~= crate::params::listed_prefixes(other));
}

proof fn lemma_items_carry_over(one: Seq<JsonModel>, other: Seq<JsonModel>)
    requires
        forall|item: JsonModel| one.contains(item) ==> other.contains(item),
    ensures
        forall|prefix: u32| #[trigger]
            crate::params::listed_prefixes(one).contains(prefix)
                ==> crate::params::listed_prefixes(other).contains(prefix),
{
    assert forall|prefix: u32| #[trigger]
        crate::params::listed_prefixes(one).contains(
            prefix,
        ) implies crate::params::listed_prefixes(other).contains(prefix) by {
        let i = choose|i: int|
            0 <= i < one.len() && #[trigger] crate::params::names_prefix(one[i], prefix);
        assert(one.contains(one[i]));
        let k = choose|k: int| 0 <= k < other.len() && other[k] == one[i];
        assert(crate::params::names_prefix(other[k], prefix));
    }
}

/// The array that stands for a set holds the members of the set themselves as numbers, the smaller
/// before the larger, each once, and nothing else.
pub proof fn law_array_holds_the_prefixes(prefixes: Set<u32>)
    ensures
        crate::params::prefix_array(prefixes) matches JsonModel::Array(items) && {
            &&& items.len() == prefixes.len()
            &&& forall|k: int|
                0 <= k < items.len() ==> (#[trigger] items[k] matches JsonModel::Number(Some(value))
                    && value <= u32::MAX && prefixes.contains(value as u32))
            &&& forall|j: int, k: int|
                0 <= j < k < items.len() ==> (#[trigger] items[j])->Number_0->0 < (
                #[trigger] items[k])->Number_0->0
            &&& forall|value: u64|
                #[trigger] items.contains(JsonModel::Number(Some(value))) <==> value <= u32::MAX
                    && prefixes.contains(value as u32)
        },
{
    let listed = crate::prefixes::ascending(prefixes);
    let items = crate::params::prefix_array(prefixes)->Array_0;
    law_ascending_lists_the_set(prefixes);
    assert forall|k: int| 0 <= k < items.len() implies (#[trigger] items[k]) == JsonModel::Number(
        Some(listed[k] as u64),
    ) && prefixes.contains(listed[k]) by {}
    assert forall|value: u64|
        #[trigger] items.contains(JsonModel::Number(Some(value))) <==> value <= u32::MAX && prefixes.contains(
            value as u32,
        ) by {
        if items.contains(JsonModel::Number(Some(value))) {
            let k = choose|k: int|
                0 <= k < items.len() && items[k] == JsonModel::Number(Some(value));
            assert(listed[k] as u64 == value);
        }
        if value <= u32::MAX && prefixes.contains(value as u32) {
            let k = choose|k: int| 0 <= k < listed.len() && #[trigger] listed[k] == value as u32;
            assert(items[k] == JsonModel::Number(Some(value)));
        }
    }
}

/// A request document has a `prefixes` field that is the array of the prefixes, and no other.
pub proof fn law_request_document_in_fields(prefixes: Set<u32>)
    ensures
        crate::prefix_delete_factory::request_document(prefixes) matches JsonModel::Object(fields)
            && fields.dom() == set!["prefixes"@] && fields["prefixes"@]
            == crate::params::prefix_array(prefixes),
{
    let fields = crate::prefix_delete_factory::request_document(prefixes)->Object_0;
    assert(fields.dom() =~= set!["prefixes"@]);
}

/// A response document has a `total_deleted` field that is the total, and no other.
pub proof fn law_response_document_in_fields(total_deleted: u64)
    ensures
        crate::prefix_delete_factory::response_document(total_deleted) matches JsonModel::Object(
            fields,
        ) && fields.dom() == set!["total_deleted"@] && fields["total_deleted"@]
            == JsonModel::Number(Some(total_deleted)),
{
    let fields = crate::prefix_delete_factory::response_document(total_deleted)->Object_0;
    assert(fields.dom() =~= set!["total_deleted"@]);
}

/// The document that the web interface shows has three fields: the total as a number, the array
/// of the prefixes, and the choice of format as a truth value.
pub proof fn law_view_document_in_fields(
    prefixes: Set<u32>,
    total_deleted: u64,
    serialize_as_json: bool,
)
    ensures
        crate::prefix_delete_factory::view_document(
            prefixes,
            total_deleted,
            serialize_as_json,
        ) matches JsonModel::Object(fields) && {
            &&& fields.dom() == set!["total_deleted"@, "prefixes"@, "serialize_as_json"@]
            &&& fields["total_deleted"@] == JsonModel::Number(Some(total_deleted))
            &&& fields["prefixes"@] == crate::params::prefix_array(prefixes)
            &&& fields["serialize_as_json"@] == JsonModel::Bool(serialize_as_json)
        },
{
    crate::prefix_delete_factory::lemma_field_names();
    let document = crate::prefix_delete_factory::view_document(
        prefixes,
        total_deleted,
        serialize_as_json,
    );
    assert(document->Object_0.dom() =~= set![
        "total_deleted"@,
        "prefixes"@,
        "serialize_as_json"@,
    ]);
}

/// A document names prefixes exactly if it is an object whose `prefixes` field is an array, and
/// then those that the array lists.
pub proof fn law_prefixes_field_in_fields(document: JsonModel)
    ensures
        crate::params::prefixes_field(document) == (if document is Object
            && document->Object_0.contains_key("prefixes"@) && document->Object_0["prefixes"@]
            is Array {
            Some(crate::params::listed_prefixes(document->Object_0["prefixes"@]->Array_0))
        } else {
            None
        }),
{
}

/// A document gives a total exactly if it is an object whose `total_deleted` field is a number
/// from 0 to `u64::MAX`, and a choice of format exactly if it is an object whose
/// `serialize_as_json` field is a truth value.
pub proof fn law_total_and_format_in_fields(document: JsonModel, total: u64, choice: bool)
    ensures
        crate::params::total_deleted_field(document) == Some(total) <==> (document is Object
            && document->Object_0.contains_key("total_deleted"@)
            && document->Object_0["total_deleted"@] == JsonModel::Number(Some(total))),
        crate::params::serialize_as_json_field(document) == Some(choice) <==> (document is Object
            && document->Object_0.contains_key("serialize_as_json"@)
            && document->Object_0["serialize_as_json"@] == JsonModel::Bool(choice)),
{
}

/// A document that is received replaces the prefixes exactly if it is an object whose `prefixes`
/// field is an array, and then by the low-order 32 bits of every number from 0 to `u64::MAX` in
/// that array. Otherwise, and without a document, the prefixes stay.
pub proof fn law_received_prefixes(document: Option<JsonModel>, before: Set<u32>)
    ensures
        match document {
            Some(JsonModel::Object(fields)) => if fields.contains_key("prefixes"@)
                && fields["prefixes"@] is Array {
                let items = fields["prefixes"@]->Array_0;
                forall|prefix: u32| #[trigger]
                    crate::prefix_delete_factory::prefixes_after(document, before).contains(prefix)
                        <==> exists|i: int|
                        0 <= i < items.len() && (#[trigger] items[i]) is Number && items[i]->Number_0
                            is Some && items[i]->Number_0->0 % 0x1_0000_0000 == prefix
            } else {
                crate::prefix_delete_factory::prefixes_after(document, before) == before
            },
            _ => crate::prefix_delete_factory::prefixes_after(document, before) == before,
        },
{
    if let Some(JsonModel::Object(fields)) = document {
        if fields.contains_key("prefixes"@) && fields["prefixes"@] is Array {
            let items = fields["prefixes"@]->Array_0;
            let after = crate::prefix_delete_factory::prefixes_after(document, before);
            law_every_number_is_listed(items);
            assert(after == crate::params::listed_prefixes(items));
            assert forall|prefix: u32| #[trigger] after.contains(prefix) <==> exists|i: int|
                0 <= i < items.len() && (#[trigger] items[i]) is Number && items[i]->Number_0 is Some
                    && items[i]->Number_0->0 % 0x1_0000_0000 == prefix by {
                if exists|i: int|
                    0 <= i < items.len() && (#[trigger] items[i]) is Number && items[i]->Number_0
                        is Some && items[i]->Number_0->0 % 0x1_0000_0000 == prefix {
                    let i = choose|i: int|
                        0 <= i < items.len() && (#[trigger] items[i]) is Number && items[i]->Number_0
                            is Some && items[i]->Number_0->0 % 0x1_0000_0000 == prefix;
                    assert((items[i]->Number_0->0 % 0x1_0000_0000) as u32 == prefix);
                }
            }
        }
    }
}

/// A document that is received replaces the total exactly if it is an object whose
/// `total_deleted` field is a number from 0 to `u64::MAX`, and then by that number. Otherwise, and
/// without a document, the total stays.
pub proof fn law_received_total(document: Option<JsonModel>, before: u64)
    ensures
        crate::prefix_delete_factory::reported_total(document, before) == (match document {
            Some(JsonModel::Object(fields)) => if fields.contains_key("total_deleted"@) {
                match fields["total_deleted"@] {
                    JsonModel::Number(Some(count)) => count,
                    _ => before,
                }
            } else {
                before
            },
            _ => before,
        }),
{
}

/// A factory is created with the low-order 32 bits of every number from 0 to `u64::MAX` in the
/// `prefixes` array of the params, and with no prefix where there is no such array.
pub proof fn law_configured_prefixes_in_fields(params: JsonModel)
    ensures
        match params {
            JsonModel::Object(fields) => if fields.contains_key("prefixes"@) && fields["prefixes"@]
                is Array {
                let items = fields["prefixes"@]->Array_0;
                forall|prefix: u32| #[trigger]
                    crate::prefix_delete_factory::configured_prefixes(params).contains(prefix)
                        <==> exists|i: int|
                        0 <= i < items.len() && (#[trigger] items[i]) is Number && items[i]->Number_0
                            is Some && items[i]->Number_0->0 % 0x1_0000_0000 == prefix
            } else {
                crate::prefix_delete_factory::configured_prefixes(params) == Set::<u32>::empty()
            },
            _ => crate::prefix_delete_factory::configured_prefixes(params) == Set::<u32>::empty(),
        },
{
    law_received_prefixes(Some(params), Set::empty());
}

/// A factory is created for JSON exactly if the params are an object whose `serialize_as_json`
/// field is the truth value `true`. Without that field, or with any other value in it, the binary
/// form is used, whatever the other fields are.
pub proof fn law_binary_form_is_the_default(params: JsonModel)
    ensures
        crate::prefix_delete_factory::configured_format(params) <==> (params is Object
            && params->Object_0.contains_key("serialize_as_json"@)
            && params->Object_0["serialize_as_json"@] == JsonModel::Bool(true)),
{
}

/// The choice of format does not depend on any field but `serialize_as_json`, nor the prefixes on
/// any field but `prefixes`.
pub proof fn law_other_fields_do_not_matter(
    fields: Map<Seq<char>, JsonModel>,
    name: Seq<char>,
    value: JsonModel,
)
    ensures
        name != "serialize_as_json"@ ==> crate::prefix_delete_factory::configured_format(
            JsonModel::Object(fields.insert(name, value)),
        ) == crate::prefix_delete_factory::configured_format(JsonModel::Object(fields)),
        name != "prefixes"@ ==> crate::prefix_delete_factory::configured_prefixes(
            JsonModel::Object(fields.insert(name, value)),
        ) == crate::prefix_delete_factory::configured_prefixes(JsonModel::Object(fields)),
{
}

/// The count at the start of some data is the number whose base-256 digits are the first eight
/// bytes, in the given order. Bytes past the end count as zero.
pub proof fn law_leading_count_in_bytes(order: ByteOrder, data: Seq<u8>)
    ensures
        ({
            let at = |i: int|
                if i < data.len() {
                    data[i] as int
                } else {
                    0
                };
            &&& order is Big ==> crate::wire::leading_count(order, data) == at(0)
                * 0x100_0000_0000_0000 + at(1) * 0x1_0000_0000_0000 + at(2) * 0x100_0000_0000
                + at(3) * 0x1_0000_0000 + at(4) * 0x100_0000 + at(5) * 0x1_0000 + at(6) * 0x100
                + at(7)
            &&& order is Little ==> crate::wire::leading_count(order, data) == at(7)
                * 0x100_0000_0000_0000 + at(6) * 0x1_0000_0000_0000 + at(5) * 0x100_0000_0000
                + at(4) * 0x1_0000_0000 + at(3) * 0x100_0000 + at(2) * 0x1_0000 + at(1) * 0x100
                + at(0)
        }),
{
    law_value_of_eight_bytes(order, crate::bytes::window(data, 0, 8));
}

/// The prefix at a position of a request is the number whose base-256 digits are the four bytes
/// there, most significant first. Bytes past the end count as zero.
pub proof fn law_entry_in_bytes(data: Seq<u8>, k: int)
    requires
        0 <= k,
    ensures
        ({
            let at = |i: int|
                if i < data.len() {
                    data[i] as int
                } else {
                    0
                };
            crate::wire::entry(data, k) == at(8 + 4 * k) * 0x100_0000 + at(9 + 4 * k) * 0x1_0000
                + at(10 + 4 * k) * 0x100 + at(11 + 4 * k)
        }),
{
    law_value_of_four_bytes(crate::bytes::window(data, 8 + 4 * k, 4));
}

/// A request carries the prefix of every position below its count, and no other.
pub proof fn law_request_carries_every_position(order: ByteOrder, data: Seq<u8>)
    ensures
        forall|k: int|
            0 <= k < crate::wire::leading_count(order, data) ==> crate::wire::carried_prefixes(
                order,
                data,
            ).contains(#[trigger] crate::wire::entry(data, k)),
        forall|prefix: u32| #[trigger]
            crate::wire::carried_prefixes(order, data).contains(prefix) ==> exists|k: int|
                0 <= k < crate::wire::leading_count(order, data) && #[trigger] crate::wire::entry(
                    data,
                    k,
                ) == prefix,
{
}

/// A request is eight bytes that hold the number of prefixes in the given order, and then four
/// bytes for each prefix, the smaller prefix before the larger: its base-256 digits, most
/// significant first.
pub proof fn law_request_in_bytes(order: ByteOrder, prefixes: Set<u32>)
    ensures
        ({
            let data = crate::wire::request_bytes(order, prefixes);
            let listed = crate::prefixes::ascending(prefixes);
            &&& data.len() == 8 + 4 * prefixes.len()
            &&& order is Big ==> prefixes.len() == data[0] * 0x100_0000_0000_0000 + data[1]
                * 0x1_0000_0000_0000 + data[2] * 0x100_0000_0000 + data[3] * 0x1_0000_0000 + data[4]
                * 0x100_0000 + data[5] * 0x1_0000 + data[6] * 0x100 + data[7]
            &&& order is Little ==> prefixes.len() == data[7] * 0x100_0000_0000_0000 + data[6]
                * 0x1_0000_0000_0000 + data[5] * 0x100_0000_0000 + data[4] * 0x1_0000_0000 + data[3]
                * 0x100_0000 + data[2] * 0x1_0000 + data[1] * 0x100 + data[0]
            &&& forall|k: int|
                0 <= k < listed.len() ==> #[trigger] listed[k] == data[8 + 4 * k] * 0x100_0000
                    + data[9 + 4 * k] * 0x1_0000 + data[10 + 4 * k] * 0x100 + data[11 + 4 * k]
        }),
{
    let data = crate::wire::request_bytes(order, prefixes);
    let listed = crate::prefixes::ascending(prefixes);
    crate::wire::lemma_request_round_trip(order, prefixes, Seq::empty());
    assert(data + Seq::<u8>::empty() =~= data);
    law_leading_count_in_bytes(order, data);
    crate::prefixes::lemma_ascending(prefixes);
    crate::wire::lemma_request_entries(order, prefixes, Seq::empty());
    assert forall|k: int| 0 <= k < listed.len() implies #[trigger] listed[k] == data[8 + 4 * k]
        * 0x100_0000 + data[9 + 4 * k] * 0x1_0000 + data[10 + 4 * k] * 0x100 + data[11 + 4 * k] by {
        law_entry_in_bytes(data, k);
        assert(crate::wire::entry(data, k) == listed[k]);
    }
}

/// A response is the eight base-256 digits of the total, in the given order.
pub proof fn law_response_in_bytes(order: ByteOrder, count: u64)
    ensures
        ({
            let data = crate::wire::response_bytes(order, count);
            &&& data.len() == 8
            &&& order is Big ==> count == data[0] * 0x100_0000_0000_0000 + data[1]
                * 0x1_0000_0000_0000 + data[2] * 0x100_0000_0000 + data[3] * 0x1_0000_0000 + data[4]
                * 0x100_0000 + data[5] * 0x1_0000 + data[6] * 0x100 + data[7]
            &&& order is Little ==> count == data[7] * 0x100_0000_0000_0000 + data[6]
                * 0x1_0000_0000_0000 + data[5] * 0x100_0000_0000 + data[4] * 0x1_0000_0000 + data[3]
                * 0x100_0000 + data[2] * 0x1_0000 + data[1] * 0x100 + data[0]
        }),
{
    law_eight_bytes_of_value(order, count);
}

/// After its head, a request takes four bytes for each prefix that its count announces, as far as
/// a `u64` can say.
pub proof fn law_rest_is_four_bytes_for_each(order: ByteOrder, head: Seq<u8>)
    ensures
        4 * crate::wire::leading_count(order, head) <= u64::MAX ==> crate::wire::rest_len(order, head)
            == 4 * crate::wire::leading_count(order, head),
        4 * crate::wire::leading_count(order, head) > u64::MAX ==> crate::wire::rest_len(order, head)
            == u64::MAX,
{
}

/// A factory that uses the binary form takes the prefixes that a request carries, and one that
/// uses JSON takes what the parsed document says; neither looks at the other form.
pub proof fn law_format_decides_how_data_is_read(
    order: ByteOrder,
    data: Seq<u8>,
    prefixes: Set<u32>,
    total: u64,
)
    ensures
        crate::prefix_delete_factory::prefixes_after_request(false, order, data, prefixes)
            == crate::wire::carried_prefixes(order, data),
        crate::prefix_delete_factory::prefixes_after_request(true, order, data, prefixes)
            == crate::prefix_delete_factory::prefixes_after(
            crate::json::parsed_bytes(data),
            prefixes,
        ),
        crate::prefix_delete_factory::total_after_response(false, order, data, total)
            == crate::wire::leading_count(order, data),
        crate::prefix_delete_factory::total_after_response(true, order, data, total)
            == crate::prefix_delete_factory::reported_total(crate::json::parsed_bytes(data), total),
{
    crate::bytes::lemma_span_8();
    crate::bytes::lemma_be_value_bound(crate::bytes::window(data, 0, 8));
    crate::bytes::lemma_be_value_bound(crate::bytes::window(data, 0, 8).reverse());
}

/// Every plugin is registered once, with its own name and its own registrar: the one at index `i`
/// of its kind stands `i` places after all plugins of the kinds before.
pub proof fn law_each_plugin_under_its_own_name<N, R>(
    comparators: Seq<CompPluginEntry<N, R>>,
    merge_operators: Seq<MergePluginEntry<N, R>>,
    filter_factories: Seq<CompFilterFactoryPluginEntry<N, R>>,
    slice_transforms: Seq<SliceTransformPluginEntry<N, R>>,
)
    ensures
        ({
            let order = crate::side_plugin_ex::all_registrations(
                comparators,
                merge_operators,
                filter_factories,
                slice_transforms,
            );
            let c = comparators.len();
            let m = merge_operators.len();
            let f = filter_factories.len();
            &&& order.len() == c + m + f + slice_transforms.len()
            &&& forall|i: int|
                0 <= i < c ==> order[i] == ((#[trigger] comparators[i]).name, comparators[i].register)
            &&& forall|i: int|
                0 <= i < m ==> order[c + i] == (
                    (#[trigger] merge_operators[i]).name,
                    merge_operators[i].register,
                )
            &&& forall|i: int|
                0 <= i < f ==> order[c + m + i] == (
                    (#[trigger] filter_factories[i]).name,
                    filter_factories[i].register,
                )
            &&& forall|i: int|
                0 <= i < slice_transforms.len() ==> order[c + m + f + i] == (
                    (#[trigger] slice_transforms[i]).name,
                    slice_transforms[i].register,
                )
        }),
{
}

} // verus!
