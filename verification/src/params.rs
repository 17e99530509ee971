//! Prefixes and counters in JSON documents.

use std::collections::BTreeSet;

use vstd::prelude::*;

use crate::json::{Json, JsonModel};
use crate::prefixes::snapshot;

verus! {

/// The low-order 32 bits of a number.
pub open spec fn low_word(value: u64) -> u32 {
    (value % 0x1_0000_0000) as u32
}

/// Whether a JSON value names `prefix`: a number from 0 to `u64::MAX` names its low-order 32 bits,
/// any other value names no prefix.
pub open spec fn names_prefix(item: JsonModel, prefix: u32) -> bool {
    match crate::json::unsigned(item) {
        Some(value) => low_word(value) == prefix,
        None => false,
    }
}

/// The prefixes that the values of a list name.
pub open spec fn listed_prefixes(items: Seq<JsonModel>) -> Set<u32> {
    Set::new(
        |prefix: u32| exists|i: int| 0 <= i < items.len() && #[trigger] names_prefix(items[i], prefix),
    )
}

/// The prefixes that a document names in its `prefixes` field, if that field is an array.
pub open spec fn prefixes_field(document: JsonModel) -> Option<Set<u32>> {
    match crate::json::field(document, "prefixes"@) {
        Some(JsonModel::Array(items)) => Some(listed_prefixes(items)),
        _ => None,
    }
}

/// The count that a document gives in its `total_deleted` field, if that field is a number from
/// 0 to `u64::MAX`.
pub open spec fn total_deleted_field(document: JsonModel) -> Option<u64> {
    match crate::json::field(document, "total_deleted"@) {
        Some(value) => crate::json::unsigned(value),
        None => None,
    }
}

/// The choice that a document makes in its `serialize_as_json` field, if that field is a truth
/// value.
pub open spec fn serialize_as_json_field(document: JsonModel) -> Option<bool> {
    match crate::json::field(document, "serialize_as_json"@) {
        Some(value) => crate::json::boolean(value),
        None => None,
    }
}

/// A list of prefixes as a JSON array.
pub open spec fn prefix_array(prefixes: Set<u32>) -> JsonModel {
    JsonModel::Array(
        crate::prefixes::ascending(prefixes).map_values(
            |prefix: u32| JsonModel::Number(Some(prefix as u64)),
        ),
    )
}

/// A JSON array of prefixes names the prefixes it was made from.
pub proof fn lemma_prefix_array(prefixes: Set<u32>)
    ensures
        crate::json::flat(prefix_array(prefixes)),
        listed_prefixes(prefix_array(prefixes)->Array_0) == prefixes,
{
    let listed = crate::prefixes::ascending(prefixes);
    let items = prefix_array(prefixes)->Array_0;
    crate::prefixes::lemma_ascending(prefixes);
    assert forall|prefix: u32| listed_prefixes(items).contains(prefix) implies prefixes.contains(
        prefix,
    ) by {
        let i = choose|i: int| 0 <= i < items.len() && #[trigger] names_prefix(items[i], prefix);
        assert(listed[i] == prefix);
        assert(listed.contains(prefix));
    }
    assert forall|prefix: u32| prefixes.contains(prefix) implies listed_prefixes(items).contains(
        prefix,
    ) by {
        assert(listed.contains(prefix));
        let i = choose|i: int| 0 <= i < listed.len() && listed[i] == prefix;
        assert(names_prefix(items[i], prefix));
    }
    assert(listed_prefixes(items) =~= prefixes);
}

/// The low-order 32 bits of a number.
fn truncate(value: u64) -> (word: u32)
    ensures
        word == low_word(value),
{
    assert(value as u32 == value % 0x1_0000_0000) by (bit_vector);
    #[verifier::truncate]
    let word: u32 = value as u32;
    word
}

/// The prefixes that a document names in its `prefixes` field, if that field is an array.
pub fn read_prefixes(document: &Json) -> (prefixes: Option<BTreeSet<u32>>)
    ensures
        match prefixes {
            Some(set) => prefixes_field(document.model()) == Some(set@),
            None => prefixes_field(document.model()) is None,
        },
{
    match document.get("prefixes") {
        Some(value) => match value.as_array() {
            Some(items) => Some(collect_prefixes(items)),
            None => None,
        },
        None => None,
    }
}

fn collect_prefixes(items: &Vec<Json>) -> (prefixes: BTreeSet<u32>)
    ensures
        prefixes@ == listed_prefixes(Seq::new(items@.len(), |i: int| items@[i].model())),
{
    let ghost models = Seq::new(items@.len(), |i: int| items@[i].model());
    let mut prefixes: BTreeSet<u32> = BTreeSet::new();
    let mut i: usize = 0;
    assert(listed_prefixes(models.take(0)) =~= Set::<u32>::empty());
    while i < items.len()
        invariant
            i <= items@.len(),
            models == Seq::new(items@.len(), |i: int| items@[i].model()),
            prefixes@ == listed_prefixes(models.take(i as int)),
        decreases items.len() - i,
    {
        let ghost before = models.take(i as int);
        let ghost after = models.take(i + 1);
        let value = items[i].as_u64();
        assert(after[i as int] == items@[i as int].model());
        assert forall|prefix: u32| listed_prefixes(after).contains(prefix) <==> (
        listed_prefixes(before).contains(prefix) || names_prefix(items@[i as int].model(), prefix)) by {
            if listed_prefixes(after).contains(prefix) {
                let k = choose|k: int|
                    0 <= k < after.len() && #[trigger] names_prefix(after[k], prefix);
                if k < i {
                    assert(names_prefix(before[k], prefix));
                }
            }
            if listed_prefixes(before).contains(prefix) {
                let k = choose|k: int|
                    0 <= k < before.len() && #[trigger] names_prefix(before[k], prefix);
                assert(names_prefix(after[k], prefix));
            }
            if names_prefix(items@[i as int].model(), prefix) {
                assert(names_prefix(after[i as int], prefix));
            }
        }
        if let Some(number) = value {
            prefixes.insert(truncate(number));
        }
        assert(prefixes@ =~= listed_prefixes(after));
        i += 1;
    }
    assert(models.take(i as int) =~= models);
    prefixes
}

/// The count that a document gives in its `total_deleted` field, if that field is a number from
/// 0 to `u64::MAX`.
pub fn read_total_deleted(document: &Json) -> (count: Option<u64>)
    ensures
        count == total_deleted_field(document.model()),
{
    match document.get("total_deleted") {
        Some(value) => value.as_u64(),
        None => None,
    }
}

/// The choice that a document makes in its `serialize_as_json` field, if that field is a truth
/// value.
pub fn read_serialize_as_json(document: &Json) -> (choice: Option<bool>)
    ensures
        choice == serialize_as_json_field(document.model()),
{
    match document.get("serialize_as_json") {
        Some(value) => value.as_bool(),
        None => None,
    }
}

/// A set of prefixes as a JSON array, in ascending order.
pub fn write_prefixes(prefixes: &BTreeSet<u32>) -> (array: Json)
    ensures
        array.model() == prefix_array(prefixes@),
{
    let listed = snapshot(prefixes);
    let mut items: Vec<Json> = Vec::new();
    let mut i: usize = 0;
    while i < listed.len()
        invariant
            i <= listed@.len(),
            items@.len() == i,
            forall|k: int|
                0 <= k < i ==> (#[trigger] items@[k]).model() == JsonModel::Number(
                    Some(listed@[k] as u64),
                ),
        decreases listed.len() - i,
    {
        items.push(Json::Number(Some(listed[i] as u64)));
        i += 1;
    }
    let array = Json::Array(items);
    assert(array.model()->Array_0 =~= prefix_array(prefixes@)->Array_0);
    array
}

} // verus!
