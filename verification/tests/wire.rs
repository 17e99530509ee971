use std::collections::BTreeSet;

use toplingdb_plugin::bytes::{push_be_u32, push_u64, read_be_u32, read_u64, ByteOrder};
use toplingdb_plugin::prefixes::{holds, prefix_of_key, snapshot};
use toplingdb_plugin::wire::{decode_request, encode_request, encode_response, read_count};

#[test]
fn prefixes_are_written_most_significant_byte_first() {
    let mut out = vec![9];
    push_be_u32(&mut out, 0x64656164);
    assert_eq!(out, b"\x09dead".to_vec());
    assert_eq!(read_be_u32(&out, 1), 0x64656164);
    assert_eq!(read_be_u32(&out, 3), 0x61640000);
    assert_eq!(read_be_u32(&out, 5), 0);
    assert_eq!(read_be_u32(&out, usize::MAX), 0);
}

#[test]
fn counters_are_written_in_either_order() {
    let value: u64 = 0xfedc_ba98_7654_3210;
    let mut little = Vec::new();
    let mut big = Vec::new();
    push_u64(&mut little, ByteOrder::Little, value);
    push_u64(&mut big, ByteOrder::Big, value);
    assert_eq!(little, value.to_le_bytes().to_vec());
    assert_eq!(big, value.to_be_bytes().to_vec());
    assert_eq!(read_u64(&little, ByteOrder::Little), value);
    assert_eq!(read_u64(&big, ByteOrder::Big), value);
    assert_eq!(read_u64(&[1], ByteOrder::Little), 1);
    assert_eq!(read_u64(&[1], ByteOrder::Big), 1 << 56);
}

#[test]
fn requests_and_responses_start_with_a_count() {
    let prefixes = BTreeSet::from([0, 1, u32::MAX]);
    for order in [ByteOrder::Little, ByteOrder::Big] {
        let request = encode_request(order, &prefixes);
        assert_eq!(request.len(), 20);
        assert_eq!(read_count(order, &request), 3);
        assert_eq!(decode_request(order, &request), prefixes);
        assert_eq!(read_count(order, &encode_response(order, 77)), 77);
    }
}

#[test]
fn the_prefix_of_a_key_is_its_first_four_bytes() {
    assert_eq!(prefix_of_key(b"dead:001"), Some(0x64656164));
    assert_eq!(prefix_of_key(b"dead"), Some(0x64656164));
    assert_eq!(prefix_of_key(b"dea"), None);
}

#[test]
fn a_snapshot_is_in_ascending_order() {
    let list = snapshot(&BTreeSet::from([5, 1, u32::MAX, 3]));
    assert_eq!(list, vec![1, 3, 5, u32::MAX]);
    assert!(holds(&list, 1));
    assert!(holds(&list, u32::MAX));
    assert!(!holds(&list, 0));
    assert!(!holds(&list, 4));
    assert!(!holds(&vec![], 4));
}
