//! A compaction filter factory that deletes the keys whose first four bytes, read as a big-endian
//! number, belong to a configurable set.
//!
//! The factory is created from the `params` object of the configuration:
//!
//! ```json
//! {"CompactionFilterFactory": {"my_factory": {
//!     "class": "PrefixDeleteFactory",
//!     "params": {"prefixes": [1684365668]}
//! }}}
//! ```
//!
//! Here `1684365668`, or `0x64656164`, stands for the ASCII prefix `"dead"`.
//!
//! For each compaction run the factory makes a [`PrefixDeleteFilter`], which works on a snapshot of
//! the set and counts what it deletes. When the run is over, [`PrefixDeleteFilter::finish`] adds
//! that count to the factory's total.

use std::collections::BTreeSet;

use vstd::prelude::*;

use crate::bytes::ByteOrder;
use crate::json::{parse_bytes, parse_text, print_bytes, InvalidJson, Json, JsonModel};
use crate::params::{
    read_prefixes, read_serialize_as_json, read_total_deleted, write_prefixes,
};
use crate::prefixes::{holds, prefix_of_key, snapshot};
use crate::side_plugin_ex::{SerDe, SidePluginRepo, WebManip};
use crate::wire::{
    decode_request, encode_request, encode_response, read_count, request_rest_len, COUNT_LEN,
};

verus! {

/// What becomes of a key in a compaction.
#[derive(Clone, Copy, Debug, PartialEq, Eq, Structural)]
pub enum Decision {
    Keep,
    Remove,
}

/// What is known of a compaction when its filter is made.
#[derive(Clone, Copy, Debug, PartialEq, Eq, Structural)]
pub struct CompactionFilterContext {
    /// Whether the compaction covers all data files.
    pub is_full_compaction: bool,
    /// Whether a client asked for the compaction.
    pub is_manual_compaction: bool,
}

/// Makes the filters that delete keys by their first four bytes.
pub struct PrefixDeleteFactory {
    /// The prefixes to delete.
    pub prefixes: BTreeSet<u32>,
    /// How many keys have been deleted in all finished compactions that used this factory.
    pub total_deleted: u64,
    /// Whether state travels as JSON (readable) or in the binary form (compact, the default).
    ///
    /// The choice is part of the configuration, which every node has, so it does not travel with
    /// the state.
    pub serialize_as_json: bool,
}

/// Deletes keys in one compaction run, by the prefixes that the factory had when it began.
pub struct PrefixDeleteFilter {
    prefixes: Vec<u32>,
    local_deleted: u64,
}

impl PrefixDeleteFilter {
    #[verifier::type_invariant]
    spec fn sorted(self) -> bool {
        crate::prefixes::strictly_ascending(self.prefixes@)
    }

    /// The prefixes that this filter deletes.
    pub closed spec fn prefixes(self) -> Set<u32> {
        self.prefixes@.to_set()
    }

    /// How many keys this filter has deleted.
    pub closed spec fn deleted(self) -> u64 {
        self.local_deleted
    }

    /// Decides on a key: it is removed, and counted, if its first four bytes are one of the
    /// prefixes, and kept otherwise. A key of fewer than four bytes is kept.
    ///
    /// A key that matches needs a count below `u64::MAX`.
    pub fn filter(&mut self, _level: u32, key: &[u8], _value: &[u8]) -> (decision: Decision)
        requires
            crate::prefixes::matches_prefix(old(self).prefixes(), key@) ==> old(self).deleted()
                < u64::MAX,
        ensures
            decision == (if crate::prefixes::matches_prefix(old(self).prefixes(), key@) {
                Decision::Remove
            } else {
                Decision::Keep
            }),
            decision is Remove <==> (key@.len() >= 4 && old(self).prefixes().contains(
                (key@[0] * 0x100_0000 + key@[1] * 0x1_0000 + key@[2] * 0x100 + key@[3]) as u32,
            )),
            final(self).prefixes() == old(self).prefixes(),
            final(self).deleted() == old(self).deleted() + (if decision is Remove {
                1int
            } else {
                0
            }),
            after_key(*old(self), key@, *final(self)),
    {
        proof {
            use_type_invariant(&*self);
            crate::meaning::law_match_in_bytes(self.prefixes(), key@);
        }
        if self.matches(key) {
            self.local_deleted = self.local_deleted + 1;
            Decision::Remove
        } else {
            Decision::Keep
        }
    }

    /// Whether the first four bytes of a key are one of the prefixes.
    pub fn matches(&self, key: &[u8]) -> (found: bool)
        ensures
            found == crate::prefixes::matches_prefix(self.prefixes(), key@),
            found <==> (key@.len() >= 4 && self.prefixes().contains(
                (key@[0] * 0x100_0000 + key@[1] * 0x1_0000 + key@[2] * 0x100 + key@[3]) as u32,
            )),
    {
        proof {
            use_type_invariant(self);
            crate::meaning::law_match_in_bytes(self.prefixes(), key@);
        }
        match prefix_of_key(key) {
            Some(prefix) => holds(&self.prefixes, prefix),
            None => false,
        }
    }

    /// How many keys this filter has deleted.
    pub fn local_deleted(&self) -> (count: u64)
        ensures
            count == self.deleted(),
    {
        self.local_deleted
    }

    /// Ends the run: adds what this filter has deleted to the factory's total. The total wraps
    /// around at `u64::MAX`.
    pub fn finish(self, factory: &mut PrefixDeleteFactory)
        ensures
            final(factory).total_deleted == total_after(old(factory).total_deleted, self.deleted()),
            final(factory).prefixes == old(factory).prefixes,
            final(factory).serialize_as_json == old(factory).serialize_as_json,
    {
        factory.total_deleted = factory.total_deleted.wrapping_add(self.local_deleted);
    }

    /// The name that the filter reports.
    pub fn name(&self) -> (name: &'static str)
        ensures
            name@ == "PrefixDeleteFactory"@,
            !name@.contains('\0'),
    {
        proof {
            lemma_name();
        }
        "PrefixDeleteFactory"
    }
}

/// How deciding on a key changes a filter: the prefixes stay, and the count goes up by one if the
/// key is removed.
pub open spec fn after_key(
    before: PrefixDeleteFilter,
    key: Seq<u8>,
    after: PrefixDeleteFilter,
) -> bool {
    &&& after.prefixes() == before.prefixes()
    &&& after.deleted() == before.deleted() + (if crate::prefixes::matches_prefix(
        before.prefixes(),
        key,
    ) {
        1int
    } else {
        0
    })
}

/// The total after a run that deleted `local` keys: their sum, modulo 2^64.
pub open spec fn total_after(total: u64, local: u64) -> u64 {
    ((total + local) % 0x1_0000_0000_0000_0000) as u64
}

proof fn lemma_name()
    ensures
        !"PrefixDeleteFactory"@.contains('\0'),
{
    reveal_strlit("PrefixDeleteFactory");
}

impl PrefixDeleteFactory {
    /// Makes the filter of one compaction run, with a snapshot of the prefixes.
    pub fn create(&mut self, _context: CompactionFilterContext) -> (filter: PrefixDeleteFilter)
        ensures
            filter.prefixes() == old(self).prefixes@,
            filter.deleted() == 0,
            *final(self) == *old(self),
    {
        proof {
            crate::prefixes::lemma_ascending(self.prefixes@);
        }
        let prefixes = snapshot(&self.prefixes);
        PrefixDeleteFilter { prefixes, local_deleted: 0 }
    }

    /// The name that the factory reports.
    pub fn name(&self) -> (name: &'static str)
        ensures
            name@ == "PrefixDeleteFactory"@,
            !name@.contains('\0'),
    {
        proof {
            lemma_name();
        }
        "PrefixDeleteFactory"
    }
}

/// The document that a request travels as in JSON.
pub open spec fn request_document(prefixes: Set<u32>) -> JsonModel {
    JsonModel::Object(map!["prefixes"@ => crate::params::prefix_array(prefixes)])
}

/// The document that a response travels as in JSON.
pub open spec fn response_document(total_deleted: u64) -> JsonModel {
    JsonModel::Object(map!["total_deleted"@ => JsonModel::Number(Some(total_deleted))])
}

/// The document that the web interface shows.
pub open spec fn view_document(
    prefixes: Set<u32>,
    total_deleted: u64,
    serialize_as_json: bool,
) -> JsonModel {
    JsonModel::Object(
        map![
            "total_deleted"@ => JsonModel::Number(Some(total_deleted)),
            "prefixes"@ => crate::params::prefix_array(prefixes),
            "serialize_as_json"@ => JsonModel::Bool(serialize_as_json),
        ],
    )
}

/// The prefixes after a document was received: those that it names, or the earlier ones where it
/// names none or where what was received is no document.
pub open spec fn prefixes_after(document: Option<JsonModel>, before: Set<u32>) -> Set<u32> {
    match document {
        Some(document) => match crate::params::prefixes_field(document) {
            Some(prefixes) => prefixes,
            None => before,
        },
        None => before,
    }
}

/// The total after a document was received: the one that it gives, or the earlier one where it
/// gives none or where what was received is no document.
pub open spec fn reported_total(document: Option<JsonModel>, before: u64) -> u64 {
    match document {
        Some(document) => match crate::params::total_deleted_field(document) {
            Some(count) => count,
            None => before,
        },
        None => before,
    }
}

/// The prefixes of a factory after it received a request.
pub open spec fn prefixes_after_request(
    serialize_as_json: bool,
    order: ByteOrder,
    data: Seq<u8>,
    before: Set<u32>,
) -> Set<u32> {
    if serialize_as_json {
        prefixes_after(crate::json::parsed_bytes(data), before)
    } else {
        crate::wire::carried_prefixes(order, data)
    }
}

/// The total of a factory after it received a response.
pub open spec fn total_after_response(
    serialize_as_json: bool,
    order: ByteOrder,
    data: Seq<u8>,
    before: u64,
) -> u64 {
    if serialize_as_json {
        reported_total(crate::json::parsed_bytes(data), before)
    } else {
        crate::wire::leading_count(order, data) as u64
    }
}

/// The fields of the documents have different names.
pub proof fn lemma_field_names()
    ensures
        "prefixes"@ != "total_deleted"@,
        "prefixes"@ != "serialize_as_json"@,
        "total_deleted"@ != "serialize_as_json"@,
{
    reveal_strlit("prefixes");
    reveal_strlit("total_deleted");
    reveal_strlit("serialize_as_json");
    assert("prefixes"@.len() == 8);
    assert("total_deleted"@.len() == 13);
    assert("serialize_as_json"@.len() == 17);
}

/// The document of a request names the prefixes that it was made for.
pub proof fn lemma_request_document(prefixes: Set<u32>)
    ensures
        crate::json::flat_record(request_document(prefixes)),
        crate::params::prefixes_field(request_document(prefixes)) == Some(prefixes),
{
    crate::params::lemma_prefix_array(prefixes);
}

/// The document that the web interface shows gives the prefixes, the total and the choice of
/// format that it was made for.
pub proof fn lemma_view_document(prefixes: Set<u32>, total_deleted: u64, serialize_as_json: bool)
    ensures
        ({
            let document = view_document(prefixes, total_deleted, serialize_as_json);
            &&& crate::json::flat_record(document)
            &&& crate::params::prefixes_field(document) == Some(prefixes)
            &&& crate::params::total_deleted_field(document) == Some(total_deleted)
            &&& crate::params::serialize_as_json_field(document) == Some(serialize_as_json)
        }),
{
    lemma_field_names();
    crate::params::lemma_prefix_array(prefixes);
}

/// Adds a field to an object.
fn add_field(fields: &mut Vec<(String, Json)>, name: &str, value: Json)
    ensures
        crate::json::fields_model(final(fields)@) == crate::json::fields_model(old(fields)@).insert(
            name@,
            value.model(),
        ),
{
    let name: String = name.to_string();
    proof {
        crate::json::lemma_push_field(fields@, name, value);
    }
    fields.push((name, value));
}

impl PrefixDeleteFactory {
    /// The document that a request travels as in JSON.
    pub fn request_json(&self) -> (document: Json)
        ensures
            document.model() == request_document(self.prefixes@),
    {
        let mut fields: Vec<(String, Json)> = Vec::new();
        add_field(&mut fields, "prefixes", write_prefixes(&self.prefixes));
        proof {
            assert(crate::json::fields_model(fields@) =~= request_document(
                self.prefixes@,
            )->Object_0);
        }
        Json::Object(fields)
    }

    /// The document that a response travels as in JSON.
    pub fn response_json(&self) -> (document: Json)
        ensures
            document.model() == response_document(self.total_deleted),
    {
        let mut fields: Vec<(String, Json)> = Vec::new();
        add_field(&mut fields, "total_deleted", Json::Number(Some(self.total_deleted)));
        proof {
            assert(crate::json::fields_model(fields@) =~= response_document(
                self.total_deleted,
            )->Object_0);
        }
        Json::Object(fields)
    }

    /// The document that the web interface shows.
    pub fn view_json(&self) -> (document: Json)
        ensures
            document.model() == view_document(
                self.prefixes@,
                self.total_deleted,
                self.serialize_as_json,
            ),
    {
        let mut fields: Vec<(String, Json)> = Vec::new();
        add_field(&mut fields, "total_deleted", Json::Number(Some(self.total_deleted)));
        add_field(&mut fields, "prefixes", write_prefixes(&self.prefixes));
        add_field(&mut fields, "serialize_as_json", Json::Bool(self.serialize_as_json));
        proof {
            assert(crate::json::fields_model(fields@) =~= view_document(
                self.prefixes@,
                self.total_deleted,
                self.serialize_as_json,
            )->Object_0);
        }
        Json::Object(fields)
    }

    /// How many bytes a receiver of a request or of a response takes from the stream to begin with.
    /// `None` stands for all that are left.
    pub fn head_len(&self) -> (len: Option<u64>)
        ensures
            len == (if self.serialize_as_json {
                None
            } else {
                Some(8u64)
            }),
    {
        if self.serialize_as_json {
            None
        } else {
            Some(COUNT_LEN as u64)
        }
    }

    /// How many more bytes a receiver of a request takes from the stream after the head.
    pub fn request_rest_len(&self, order: ByteOrder, head: &[u8]) -> (len: u64)
        ensures
            len == (if self.serialize_as_json {
                0
            } else {
                crate::wire::rest_len(order, head@)
            }),
    {
        if self.serialize_as_json {
            0
        } else {
            request_rest_len(order, head)
        }
    }

    /// Takes over the prefixes that a document names. Where there is no document, or its `prefixes`
    /// field is no array, the prefixes stay.
    pub fn replace_prefixes(&mut self, document: Result<Json, InvalidJson>)
        ensures
            final(self).prefixes@ == prefixes_after(
                match document {
                    Ok(json) => Some(json.model()),
                    Err(_) => None,
                },
                old(self).prefixes@,
            ),
            final(self).total_deleted == old(self).total_deleted,
            final(self).serialize_as_json == old(self).serialize_as_json,
    {
        if let Ok(json) = document {
            if let Some(prefixes) = read_prefixes(&json) {
                self.prefixes = prefixes;
            }
        }
    }

    /// Takes over the total that a document gives. Where there is no document, or its
    /// `total_deleted` field is no number from 0 to `u64::MAX`, the total stays.
    pub fn replace_total(&mut self, document: Result<Json, InvalidJson>)
        ensures
            final(self).total_deleted == reported_total(
                match document {
                    Ok(json) => Some(json.model()),
                    Err(_) => None,
                },
                old(self).total_deleted,
            ),
            final(self).prefixes == old(self).prefixes,
            final(self).serialize_as_json == old(self).serialize_as_json,
    {
        if let Ok(json) = document {
            if let Some(count) = read_total_deleted(&json) {
                self.total_deleted = count;
            }
        }
    }
}

impl SerDe for PrefixDeleteFactory {
    /// Writes the prefixes. A factory with the same choice of format that receives the data ends
    /// up with these prefixes, whatever it had before.
    fn serialize_request(&self, order: ByteOrder) -> (data: Vec<u8>)
        ensures
            data@ == (if self.serialize_as_json {
                vstd::utf8::encode_utf8(crate::json::printed(request_document(self.prefixes@)))
            } else {
                crate::wire::request_bytes(order, self.prefixes@)
            }),
            forall|before: Set<u32>| #[trigger]
                prefixes_after_request(self.serialize_as_json, order, data@, before)
                    == self.prefixes@,
    {
        proof {
            lemma_request_document(self.prefixes@);
            crate::json::lemma_flat_record_is_integral(request_document(self.prefixes@));
            crate::wire::lemma_request_round_trip(order, self.prefixes@, Seq::empty());
            let data = crate::wire::request_bytes(order, self.prefixes@);
            assert(data + Seq::<u8>::empty() =~= data);
        }
        if self.serialize_as_json {
            print_bytes(&self.request_json())
        } else {
            encode_request(order, &self.prefixes)
        }
    }

    /// Takes over the prefixes of a request.
    fn deserialize_request(&mut self, order: ByteOrder, data: &[u8])
        ensures
            final(self).prefixes@ == prefixes_after_request(
                old(self).serialize_as_json,
                order,
                data@,
                old(self).prefixes@,
            ),
            final(self).total_deleted == old(self).total_deleted,
            final(self).serialize_as_json == old(self).serialize_as_json,
    {
        if self.serialize_as_json {
            self.replace_prefixes(parse_bytes(data));
        } else {
            self.prefixes = decode_request(order, data);
        }
    }

    /// Writes the total. A factory with the same choice of format that receives the data ends up
    /// with this total, whatever it had before.
    fn serialize_response(&self, order: ByteOrder) -> (data: Vec<u8>)
        ensures
            data@ == (if self.serialize_as_json {
                vstd::utf8::encode_utf8(crate::json::printed(response_document(self.total_deleted)))
            } else {
                crate::wire::response_bytes(order, self.total_deleted)
            }),
            forall|before: u64| #[trigger]
                total_after_response(self.serialize_as_json, order, data@, before)
                    == self.total_deleted,
    {
        proof {
            assert(crate::json::flat_record(response_document(self.total_deleted)));
            crate::json::lemma_flat_record_is_integral(response_document(self.total_deleted));
            crate::wire::lemma_response_round_trip(order, self.total_deleted, Seq::empty());
            let data = crate::wire::response_bytes(order, self.total_deleted);
            assert(data + Seq::<u8>::empty() =~= data);
        }
        if self.serialize_as_json {
            print_bytes(&self.response_json())
        } else {
            encode_response(order, self.total_deleted)
        }
    }

    /// Takes over the total of a response.
    fn deserialize_response(&mut self, order: ByteOrder, data: &[u8])
        ensures
            final(self).total_deleted == total_after_response(
                old(self).serialize_as_json,
                order,
                data@,
                old(self).total_deleted,
            ),
            final(self).prefixes == old(self).prefixes,
            final(self).serialize_as_json == old(self).serialize_as_json,
    {
        if self.serialize_as_json {
            self.replace_total(parse_bytes(data));
        } else {
            self.total_deleted = read_count(order, data);
        }
    }
}

impl WebManip for PrefixDeleteFactory {
    /// Shows the total, the prefixes and the choice of format as a JSON document. An update with
    /// the text that was shown brings back the prefixes that were shown.
    fn view(&self, _dump_options_json: &str, _repo: &SidePluginRepo) -> (shown: Vec<u8>)
        ensures
            shown@ == vstd::utf8::encode_utf8(
                crate::json::printed(
                    view_document(self.prefixes@, self.total_deleted, self.serialize_as_json),
                ),
            ),
            crate::json::parsed_bytes(shown@) == Some(
                view_document(self.prefixes@, self.total_deleted, self.serialize_as_json),
            ),
            forall|text: Seq<char>, before: Set<u32>|
                #![trigger prefixes_after(crate::json::parsed_text(text), before)]
                shown@ == vstd::utf8::encode_utf8(text) ==> prefixes_after(
                    crate::json::parsed_text(text),
                    before,
                ) == self.prefixes@,
    {
        let ghost document = view_document(
            self.prefixes@,
            self.total_deleted,
            self.serialize_as_json,
        );
        proof {
            lemma_view_document(self.prefixes@, self.total_deleted, self.serialize_as_json);
            crate::json::lemma_flat_record_is_integral(document);
        }
        let shown = print_bytes(&self.view_json());
        proof {
            let printed = crate::json::printed(document);
            assert forall|text: Seq<char>| shown@ == #[trigger] vstd::utf8::encode_utf8(
                text,
            ) implies text == printed by {
                vstd::utf8::encode_utf8_decode_utf8(text);
                vstd::utf8::encode_utf8_decode_utf8(printed);
            }
            assert forall|text: Seq<char>, before: Set<u32>|
                #![trigger prefixes_after(crate::json::parsed_text(text), before)]
                shown@ == vstd::utf8::encode_utf8(text) implies prefixes_after(
                crate::json::parsed_text(text),
                before,
            ) == self.prefixes@ by {}
        }
        shown
    }

    /// Takes over the prefixes that `body_json` names. A text that is no JSON document, or whose
    /// `prefixes` field is no array, changes nothing.
    fn update(&mut self, _dump_options_json: &str, body_json: &str, _repo: &SidePluginRepo)
        ensures
            final(self).prefixes@ == prefixes_after(
                crate::json::parsed_text(body_json@),
                old(self).prefixes@,
            ),
            final(self).total_deleted == old(self).total_deleted,
            final(self).serialize_as_json == old(self).serialize_as_json,
    {
        self.replace_prefixes(parse_text(body_json));
    }
}

/// The prefixes that a factory is created with.
pub open spec fn configured_prefixes(params: JsonModel) -> Set<u32> {
    prefixes_after(Some(params), Set::empty())
}

/// The choice of format that a factory is created with.
pub open spec fn configured_format(params: JsonModel) -> bool {
    match crate::params::serialize_as_json_field(params) {
        Some(choice) => choice,
        None => false,
    }
}

/// Creates a factory from the `params` object of the configuration, such as
///
/// ```json
/// {"prefixes": [1, 2, 3]}
/// ```
///
/// Without a `prefixes` array there are no prefixes; without a `serialize_as_json` truth value the
/// binary form is used.
pub fn create(json: Json, _repo: &SidePluginRepo) -> (factory: PrefixDeleteFactory)
    ensures
        factory.prefixes@ == configured_prefixes(json.model()),
        factory.serialize_as_json == configured_format(json.model()),
        factory.serialize_as_json <==> (json.model() is Object
            && json.model()->Object_0.contains_key("serialize_as_json"@)
            && json.model()->Object_0["serialize_as_json"@] == JsonModel::Bool(true)),
        factory.total_deleted == 0,
{
    let prefixes = match read_prefixes(&json) {
        Some(prefixes) => prefixes,
        None => BTreeSet::new(),
    };
    let serialize_as_json = match read_serialize_as_json(&json) {
        Some(choice) => choice,
        None => false,
    };
    PrefixDeleteFactory { prefixes, total_deleted: 0, serialize_as_json }
}

/// Creates a factory from the text of the `params` object, as the C side passes it.
pub fn create_from_text(text: &str, repo: &SidePluginRepo) -> (result: Result<
    PrefixDeleteFactory,
    InvalidJson,
>)
    ensures
        match result {
            Ok(factory) => crate::json::parsed_text(text@) matches Some(params)
                && factory.prefixes@ == configured_prefixes(params) && factory.serialize_as_json
                == configured_format(params) && factory.total_deleted == 0,
            Err(InvalidJson) => crate::json::parsed_text(text@) is None,
        },
{
    match parse_text(text) {
        Ok(json) => Ok(create(json, repo)),
        Err(error) => Err(error),
    }
}

} // verus!
