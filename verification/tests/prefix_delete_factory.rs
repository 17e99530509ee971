use std::collections::BTreeSet;

use toplingdb_plugin::bytes::ByteOrder;
use toplingdb_plugin::json::{InvalidJson, Json};
use toplingdb_plugin::prefix_delete_factory::{
    create, create_from_text, CompactionFilterContext, Decision, PrefixDeleteFactory,
};
use toplingdb_plugin::side_plugin_ex::{SerDe, SidePluginRepo, WebManip};

fn repo() -> SidePluginRepo {
    SidePluginRepo { inner: 0 }
}

fn context() -> CompactionFilterContext {
    CompactionFilterContext {
        is_full_compaction: true,
        is_manual_compaction: false,
    }
}

fn factory(prefixes: &[u32], total_deleted: u64, serialize_as_json: bool) -> PrefixDeleteFactory {
    PrefixDeleteFactory {
        prefixes: prefixes.iter().copied().collect(),
        total_deleted,
        serialize_as_json,
    }
}

fn number(value: u64) -> Json {
    Json::Number(Some(value))
}

fn object(fields: Vec<(&str, Json)>) -> Json {
    Json::Object(fields.into_iter().map(|(name, value)| (name.to_string(), value)).collect())
}

#[test]
fn test_factory_create() {
    let json = object(vec![(
        "prefixes",
        Json::Array(vec![number(0xdeadbeef), number(0xcafebabe)]),
    )]);
    let factory = create(json, &repo());
    assert_eq!(factory.prefixes, BTreeSet::from([0xdeadbeef, 0xcafebabe]));
    assert_eq!(factory.total_deleted, 0);
}

#[test]
fn test_factory_empty_prefixes() {
    let factory = create(object(vec![]), &repo());
    assert!(factory.prefixes.is_empty());
}

#[test]
fn test_filter_remove_matching_prefix() {
    let mut factory = factory(&[0x00000001, 0x00000002], 0, false);
    let mut filter = factory.create(context());

    // Prefix 0x00000001 matches
    assert!(matches!(
        filter.filter(0, &[0x00, 0x00, 0x00, 0x01, 0xAA, 0xBB], b"val"),
        Decision::Remove,
    ));
    // Prefix 0x00000004 does not match
    assert!(matches!(
        filter.filter(0, &[0x00, 0x00, 0x00, 0x04, 0xCC, 0xDD], b"val"),
        Decision::Keep,
    ));
    // Short key
    assert!(matches!(filter.filter(0, b"ab", b"val"), Decision::Keep));

    assert_eq!(filter.local_deleted(), 1);
    filter.finish(&mut factory);
    assert_eq!(factory.total_deleted, 1);
}

#[test]
fn test_serde_request_roundtrip() {
    for order in [ByteOrder::Little, ByteOrder::Big] {
        let sender = factory(&[0x00000001, 0x00000002, 0x00000003], 0, false);
        let data = sender.serialize_request(order);
        assert!(!data.is_empty());

        let mut deserialized = factory(&[], 0, false);
        deserialized.deserialize_request(order, &data);
        assert_eq!(
            deserialized.prefixes,
            BTreeSet::from([0x00000001, 0x00000002, 0x00000003]),
        );
    }
}

#[test]
fn test_serde_response_roundtrip() {
    for order in [ByteOrder::Little, ByteOrder::Big] {
        let sender = factory(&[], 5, false);
        let data = sender.serialize_response(order);
        assert!(!data.is_empty());

        let mut other = factory(&[], 0, false);
        other.deserialize_response(order, &data);
        assert_eq!(other.total_deleted, 5);
    }
}

#[test]
fn test_serde_request_json_roundtrip() {
    let sender = factory(&[0x00000001, 0x00000002, 0x00000003], 0, true);
    let data = sender.serialize_request(ByteOrder::Little);
    assert!(!data.is_empty());

    let mut deserialized = factory(&[], 0, true);
    deserialized.deserialize_request(ByteOrder::Little, &data);
    assert_eq!(
        deserialized.prefixes,
        BTreeSet::from([0x00000001, 0x00000002, 0x00000003]),
    );
}

#[test]
fn test_webmanip_view_update() {
    let mut factory = factory(&[10, 20], 3, false);

    // view
    let result = factory.view(r#"{}"#, &repo());
    let view_json: serde_json::Value =
        serde_json::from_str(&String::from_utf8(result).unwrap()).unwrap();
    assert_eq!(view_json["total_deleted"], serde_json::Value::from(3));

    // update
    factory.update(r#"{}"#, r#"{"prefixes": [5, 6, 7]}"#, &repo());
    assert_eq!(factory.prefixes, BTreeSet::from([5, 6, 7]));
}

#[test]
fn dead_keys_go_and_live_keys_stay() {
    let mut factory = create_from_text(r#"{"prefixes": [1684365668]}"#, &repo()).unwrap();
    let mut filter = factory.create(context());
    assert_eq!(filter.filter(1, b"dead:001", b"delete_me"), Decision::Remove);
    assert_eq!(filter.filter(1, b"dead:002", b"delete_me_too"), Decision::Remove);
    assert_eq!(filter.filter(1, b"live:001", b"keep_me"), Decision::Keep);
    assert_eq!(filter.filter(1, b"live:002", b"keep_me_too"), Decision::Keep);
    assert_eq!(filter.filter(1, b"dead", b""), Decision::Remove);
    assert_eq!(filter.filter(1, b"dea", b""), Decision::Keep);
    assert_eq!(filter.filter(1, b"", b""), Decision::Keep);
    filter.finish(&mut factory);
    assert_eq!(factory.total_deleted, 3);
}

#[test]
fn without_prefixes_every_key_stays() {
    let mut factory = factory(&[], 0, false);
    let mut filter = factory.create(context());
    assert_eq!(filter.filter(0, &[0, 0, 0, 0], b""), Decision::Keep);
    assert_eq!(filter.filter(0, &[255, 255, 255, 255], b""), Decision::Keep);
    assert_eq!(filter.local_deleted(), 0);
}

#[test]
fn bytes_after_the_prefix_do_not_matter() {
    let mut factory = factory(&[0x01020304], 0, false);
    let mut filter = factory.create(context());
    assert_eq!(filter.filter(0, &[1, 2, 3, 4], b""), Decision::Remove);
    assert_eq!(filter.filter(0, &[1, 2, 3, 4, 5], b""), Decision::Remove);
    assert_eq!(filter.filter(0, &[1, 2, 3, 4, 0, 0], b"x"), Decision::Remove);
    assert_eq!(filter.filter(0, &[4, 3, 2, 1], b""), Decision::Keep);
}

#[test]
fn search_finds_every_member() {
    let prefixes: Vec<u32> = (0..200).map(|i| i * 21_000_000).collect();
    let mut factory = factory(&prefixes, 0, false);
    let mut filter = factory.create(context());
    for prefix in &prefixes {
        assert_eq!(filter.filter(0, &prefix.to_be_bytes(), b""), Decision::Remove);
        assert_eq!(filter.filter(0, &(prefix + 1).to_be_bytes(), b""), Decision::Keep);
    }
    assert_eq!(filter.local_deleted(), 200);
}

#[test]
fn a_filter_works_on_the_prefixes_it_began_with() {
    let mut factory = factory(&[1], 0, false);
    let mut filter = factory.create(context());
    factory.update("{}", r#"{"prefixes": [2]}"#, &repo());
    assert_eq!(filter.filter(0, &[0, 0, 0, 1], b""), Decision::Remove);
    assert_eq!(filter.filter(0, &[0, 0, 0, 2], b""), Decision::Keep);
    let mut later = factory.create(context());
    assert_eq!(later.filter(0, &[0, 0, 0, 1], b""), Decision::Keep);
    assert_eq!(later.filter(0, &[0, 0, 0, 2], b""), Decision::Remove);
}

#[test]
fn runs_add_up_in_any_order() {
    let mut first = factory(&[1], 10, false);
    let mut second = factory(&[1], 10, false);
    let mut filters = Vec::new();
    for n in [2, 3, 2, 3] {
        let mut filter = first.create(context());
        for _ in 0..n {
            filter.filter(0, &[0, 0, 0, 1], b"");
        }
        filters.push(filter);
    }
    let b2 = filters.pop().unwrap();
    let a2 = filters.pop().unwrap();
    let b1 = filters.pop().unwrap();
    let a1 = filters.pop().unwrap();
    a1.finish(&mut first);
    b1.finish(&mut first);
    b2.finish(&mut second);
    a2.finish(&mut second);
    assert_eq!(first.total_deleted, 15);
    assert_eq!(second.total_deleted, 15);
}

#[test]
fn the_total_wraps_around() {
    let mut factory = factory(&[1], u64::MAX, false);
    let mut filter = factory.create(context());
    filter.filter(0, &[0, 0, 0, 1], b"");
    filter.filter(0, &[0, 0, 0, 1], b"");
    filter.finish(&mut factory);
    assert_eq!(factory.total_deleted, 1);
}

#[test]
fn filter_and_factory_report_one_name() {
    let mut factory = factory(&[], 0, false);
    assert_eq!(factory.name(), "PrefixDeleteFactory");
    assert_eq!(factory.create(context()).name(), "PrefixDeleteFactory");
}

#[test]
fn binary_request_is_a_count_and_big_endian_prefixes() {
    let sender = factory(&[0x0a0b0c0d, 7], 0, false);
    assert_eq!(
        sender.serialize_request(ByteOrder::Little),
        vec![2, 0, 0, 0, 0, 0, 0, 0, 0, 0, 0, 7, 0x0a, 0x0b, 0x0c, 0x0d],
    );
    assert_eq!(
        sender.serialize_request(ByteOrder::Big),
        vec![0, 0, 0, 0, 0, 0, 0, 2, 0, 0, 0, 7, 0x0a, 0x0b, 0x0c, 0x0d],
    );
}

#[test]
fn binary_response_is_a_count() {
    let sender = factory(&[1, 2], 0x0102030405060708, false);
    assert_eq!(sender.serialize_response(ByteOrder::Little), vec![8, 7, 6, 5, 4, 3, 2, 1]);
    assert_eq!(sender.serialize_response(ByteOrder::Big), vec![1, 2, 3, 4, 5, 6, 7, 8]);
}

#[test]
fn what_follows_a_binary_request_is_ignored() {
    let mut data = factory(&[3, 4], 0, false).serialize_request(ByteOrder::Little);
    data.extend_from_slice(&[9, 9, 9, 9, 9]);
    let mut receiver = factory(&[8], 6, false);
    receiver.deserialize_request(ByteOrder::Little, &data);
    assert_eq!(receiver.prefixes, BTreeSet::from([3, 4]));
    assert_eq!(receiver.total_deleted, 6);
    assert!(!receiver.serialize_as_json);
}

#[test]
fn missing_bytes_of_a_binary_request_are_zero() {
    let mut receiver = factory(&[8], 0, false);
    receiver.deserialize_request(
        ByteOrder::Little,
        &[3, 0, 0, 0, 0, 0, 0, 0, 0, 0, 0, 7, 1, 2],
    );
    assert_eq!(receiver.prefixes, BTreeSet::from([0, 7, 0x01020000]));

    receiver.deserialize_request(ByteOrder::Big, &[]);
    assert!(receiver.prefixes.is_empty());

    receiver.deserialize_request(ByteOrder::Little, &[255; 8]);
    assert_eq!(receiver.prefixes, BTreeSet::from([0]));

    receiver.deserialize_request(ByteOrder::Little, &[2]);
    assert_eq!(receiver.prefixes, BTreeSet::from([0]));
}

#[test]
fn missing_bytes_of_a_binary_response_are_zero() {
    let mut receiver = factory(&[8], 77, false);
    receiver.deserialize_response(ByteOrder::Little, &[1, 2]);
    assert_eq!(receiver.total_deleted, 0x0201);
    receiver.deserialize_response(ByteOrder::Little, &[]);
    assert_eq!(receiver.total_deleted, 0);
    assert_eq!(receiver.prefixes, BTreeSet::from([8]));
}

#[test]
fn json_request_and_response_texts() {
    let sender = factory(&[0xffff_ffff, 2], u64::MAX, true);
    assert_eq!(
        sender.serialize_request(ByteOrder::Little),
        br#"{"prefixes":[2,4294967295]}"#.to_vec(),
    );
    assert_eq!(
        sender.serialize_response(ByteOrder::Big),
        br#"{"total_deleted":18446744073709551615}"#.to_vec(),
    );
}

#[test]
fn json_response_round_trip() {
    let data = factory(&[], u64::MAX, true).serialize_response(ByteOrder::Little);
    let mut receiver = factory(&[1], 4, true);
    receiver.deserialize_response(ByteOrder::Little, &data);
    assert_eq!(receiver.total_deleted, u64::MAX);
    assert_eq!(receiver.prefixes, BTreeSet::from([1]));
    assert!(receiver.serialize_as_json);
}

#[test]
fn bad_json_changes_nothing() {
    let mut receiver = factory(&[1, 2], 4, true);
    for data in [
        "", "{", "[1]", "7", "null", "{}", r#"{"prefixes": 7}"#, r#"{"prefixes": {"0": 1}}"#,
        r#"{"Prefixes": [9]}"#, r#"{"total_deleted": -1}"#, r#"{"total_deleted": "5"}"#,
        r#"{"total_deleted": 1.5}"#, r#"{"prefixes": [9]} x"#,
    ] {
        receiver.deserialize_request(ByteOrder::Little, data.as_bytes());
        receiver.deserialize_response(ByteOrder::Little, data.as_bytes());
        receiver.update("{}", data, &repo());
        assert_eq!(receiver.prefixes, BTreeSet::from([1, 2]));
        assert_eq!(receiver.total_deleted, 4);
    }
    receiver.deserialize_request(ByteOrder::Little, &[0xff, 0xfe]);
    assert_eq!(receiver.prefixes, BTreeSet::from([1, 2]));
}

#[test]
fn items_that_are_no_unsigned_numbers_are_skipped() {
    let mut receiver = factory(&[1], 0, false);
    receiver.update(
        "{}",
        r#"{"prefixes": [5, -6, 7.5, "8", null, true, [9], {"a": 10}, 4294967299, 5]}"#,
        &repo(),
    );
    assert_eq!(receiver.prefixes, BTreeSet::from([3, 5]));
    receiver.update("{}", r#"{"prefixes": []}"#, &repo());
    assert!(receiver.prefixes.is_empty());
}

#[test]
fn an_update_can_be_repeated_and_the_last_one_wins() {
    let mut receiver = factory(&[1], 0, false);
    receiver.update("{}", r#"{"prefixes": [5]}"#, &repo());
    receiver.update("{}", r#"{"prefixes": [5]}"#, &repo());
    assert_eq!(receiver.prefixes, BTreeSet::from([5]));
    receiver.update("{}", r#"{"prefixes": [6]}"#, &repo());
    assert_eq!(receiver.prefixes, BTreeSet::from([6]));
    receiver.update("{}", r#"{"prefixes": [7], "prefixes": [8]}"#, &repo());
    assert_eq!(receiver.prefixes, BTreeSet::from([8]));
}

#[test]
fn the_view_shows_all_fields_and_can_be_sent_back() {
    let mut factory = factory(&[20, 10], 3, true);
    let shown = factory.view("{}", &repo());
    assert_eq!(
        shown,
        br#"{"prefixes":[10,20],"serialize_as_json":true,"total_deleted":3}"#.to_vec(),
    );
    let text = String::from_utf8(shown).unwrap();
    factory.update("{}", r#"{"prefixes": [1]}"#, &repo());
    factory.update("{}", &text, &repo());
    assert_eq!(factory.prefixes, BTreeSet::from([10, 20]));

    let like = create_from_text(&text, &repo()).unwrap();
    assert_eq!(like.prefixes, BTreeSet::from([10, 20]));
    assert!(like.serialize_as_json);
    assert_eq!(like.total_deleted, 0);
}

#[test]
fn the_format_does_not_travel() {
    let mut receiver = factory(&[], 0, false);
    receiver.update("{}", r#"{"prefixes": [1], "serialize_as_json": true}"#, &repo());
    assert!(!receiver.serialize_as_json);
}

#[test]
fn requests_tell_prefixes_apart() {
    let one = factory(&[1, 2], 0, false).serialize_request(ByteOrder::Little);
    let other = factory(&[1, 3], 0, false).serialize_request(ByteOrder::Little);
    assert_ne!(one, other);
}

#[test]
fn params_choose_the_format() {
    for (value, chosen) in [
        (Json::Bool(true), true),
        (Json::Bool(false), false),
        (number(1), false),
        (Json::Text("true".to_string()), false),
        (Json::Null, false),
    ] {
        let factory = create(object(vec![("serialize_as_json", value)]), &repo());
        assert_eq!(factory.serialize_as_json, chosen);
    }
}

#[test]
fn params_that_are_no_object_give_an_empty_factory() {
    for params in [Json::Null, number(3), Json::Array(vec![number(3)])] {
        let factory = create(params, &repo());
        assert!(factory.prefixes.is_empty());
        assert!(!factory.serialize_as_json);
    }
}

#[test]
fn invalid_params_text_is_refused() {
    assert!(matches!(create_from_text("{", &repo()), Err(InvalidJson)));
    assert!(matches!(create_from_text("", &repo()), Err(InvalidJson)));
    assert!(create_from_text("3", &repo()).unwrap().prefixes.is_empty());
}

#[test]
fn a_receiver_takes_exactly_the_request_from_the_stream() {
    let order = ByteOrder::Little;
    let sender = factory(&[3, 4, 5], 0, false);
    let request = sender.serialize_request(order);
    let head_len = sender.head_len().unwrap() as usize;
    assert_eq!(head_len, 8);
    let mut stream = request.clone();
    stream.extend_from_slice(b"next plugin");
    let rest_len = sender.request_rest_len(order, &stream[..head_len]) as usize;
    assert_eq!(rest_len, 12);
    assert_eq!(&stream[..head_len + rest_len], &request[..]);

    assert_eq!(sender.request_rest_len(order, &[255; 8]), u64::MAX);
    assert_eq!(sender.request_rest_len(order, &[]), 0);
    assert_eq!(sender.request_rest_len(ByteOrder::Big, &[0x3f, 255, 255, 255, 255, 255, 255, 255]), u64::MAX - 3);
    assert_eq!(sender.request_rest_len(ByteOrder::Big, &[0x40, 0, 0, 0, 0, 0, 0, 0]), u64::MAX);
}

#[test]
fn a_receiver_of_json_takes_all_of_the_stream() {
    let receiver = factory(&[], 0, true);
    assert_eq!(receiver.head_len(), None);
    assert_eq!(receiver.request_rest_len(ByteOrder::Little, br#"{"prefixes":[1]}"#), 0);
}

#[test]
fn interleaved_runs_lose_no_removal() {
    let mut factory = factory(&[1], 100, false);
    let mut one = factory.create(context());
    one.filter(0, &[0, 0, 0, 1], b"");
    let mut two = factory.create(context());
    two.filter(0, &[0, 0, 0, 1], b"");
    two.filter(0, &[0, 0, 0, 2], b"");
    one.filter(0, &[0, 0, 0, 1], b"");
    assert_eq!(one.local_deleted(), 2);
    assert_eq!(two.local_deleted(), 1);
    assert_eq!(factory.total_deleted, 100);
    two.finish(&mut factory);
    assert_eq!(factory.total_deleted, 101);
    assert_eq!(one.local_deleted(), 2);
    let three = factory.create(context());
    one.filter(0, &[0, 0, 0, 1], b"");
    three.finish(&mut factory);
    one.finish(&mut factory);
    assert_eq!(factory.total_deleted, 104);
}

#[test]
fn matching_does_not_count() {
    let mut factory = factory(&[0x64656164], 0, false);
    let filter = factory.create(context());
    assert!(filter.matches(b"dead:001"));
    assert!(!filter.matches(b"live:001"));
    assert!(!filter.matches(b"dea"));
    assert_eq!(filter.local_deleted(), 0);
}
