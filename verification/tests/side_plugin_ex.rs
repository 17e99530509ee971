use std::cmp::Ordering;

use toplingdb_plugin::json::Json;
use toplingdb_plugin::side_plugin_ex::{
    create_slice_transform_c_object, make_comparator_callback, registrations,
    CompFilterFactoryPluginEntry, CompPluginEntry, MergePluginEntry, SidePluginRepo,
    SliceTransform, SliceTransformPluginEntry,
};

/// Stands for the C side: the address of a transform that keeps the first `len` bytes.
fn create_fixed_prefix(len: usize) -> SliceTransform {
    SliceTransform { inner: 0x1000 + len }
}

fn test_xform_creator(json: Json, _repo: &SidePluginRepo) -> SliceTransform {
    let len = json.get("len").and_then(|v| v.as_u64()).unwrap_or(4) as usize;
    create_fixed_prefix(len)
}

#[test]
fn test_xform_roundtrip() {
    let repo = SidePluginRepo { inner: 0 };
    let json = Json::Object(vec![("len".to_string(), Json::Number(Some(4)))]);
    let st = test_xform_creator(json, &repo);
    let ptr = create_slice_transform_c_object(st);
    assert!(ptr != 0);
    assert_eq!(ptr, 0x1004);
}

#[test]
fn a_comparator_keeps_its_parts() {
    let callback = make_comparator_callback("test-comp", |a: &[u8], b: &[u8]| a.cmp(b));
    assert_eq!(callback.name, "test-comp");
    assert_eq!((callback.compare_fn)(b"a", b"b"), Ordering::Less);
    assert_eq!((callback.compare_fn)(b"b", b"a"), Ordering::Greater);
    assert_eq!((callback.compare_fn)(b"a", b"a"), Ordering::Equal);
}

#[test]
fn plugins_are_registered_kind_by_kind() {
    let order = registrations(
        &[
            CompPluginEntry { name: "c1", register: 1 },
            CompPluginEntry { name: "c2", register: 2 },
        ],
        &[MergePluginEntry { name: "m1", register: 3 }],
        &[
            CompFilterFactoryPluginEntry { name: "f1", register: 4 },
            CompFilterFactoryPluginEntry { name: "f2", register: 5 },
        ],
        &[SliceTransformPluginEntry { name: "s1", register: 6 }],
    );
    assert_eq!(
        order,
        vec![("c1", 1), ("c2", 2), ("m1", 3), ("f1", 4), ("f2", 5), ("s1", 6)],
    );
}

#[test]
fn without_plugins_nothing_is_registered() {
    let order: Vec<(&str, i32)> = registrations(&[], &[], &[], &[]);
    assert!(order.is_empty());
}
