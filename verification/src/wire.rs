//! The compact binary form in which the nodes of a distributed compaction exchange plugin state.
//!
//! A request is a `u64` count in the byte order of the sender, followed by that many big-endian
//! `u32` prefixes. A response is a `u64` count alone. A reader starts from zeroed buffers, so that
//! bytes missing at the end of a stream count as zero.

use std::collections::BTreeSet;

use vstd::prelude::*;

use crate::bytes::{push_be_u32, push_u64, read_be_u32, read_u64, ByteOrder};
use crate::prefixes::snapshot;

verus! {

/// The number of bytes in a count.
pub const COUNT_LEN: usize = 8;

/// The big-endian bytes of each prefix, one after the other.
pub open spec fn entries(prefixes: Seq<u32>) -> Seq<u8>
    decreases prefixes.len(),
{
    if prefixes.len() == 0 {
        Seq::empty()
    } else {
        entries(prefixes.drop_last()) + crate::bytes::be_bytes(prefixes.last() as nat, 4)
    }
}

/// A request for the given prefixes: how many there are, then each of them in ascending order.
pub open spec fn request_bytes(order: ByteOrder, prefixes: Set<u32>) -> Seq<u8> {
    crate::bytes::ordered_bytes(order, prefixes.len(), 8) + entries(
        crate::prefixes::ascending(prefixes),
    )
}

/// A response that reports the given count.
pub open spec fn response_bytes(order: ByteOrder, count: u64) -> Seq<u8> {
    crate::bytes::ordered_bytes(order, count as nat, 8)
}

/// The count at the start of a request or of a response.
pub open spec fn leading_count(order: ByteOrder, data: Seq<u8>) -> nat {
    crate::bytes::ordered_value(order, crate::bytes::window(data, 0, 8))
}

/// The prefix at position `k` of a request.
pub open spec fn entry(data: Seq<u8>, k: int) -> u32 {
    crate::bytes::be_value(crate::bytes::window(data, 8 + 4 * k, 4)) as u32
}

/// The prefixes of the first `count` positions of a request.
pub open spec fn entries_below(data: Seq<u8>, count: nat) -> Set<u32> {
    Set::new(|prefix: u32| exists|k: int| 0 <= k < count && #[trigger] entry(data, k) == prefix)
}

/// The prefixes that a request carries: those of as many positions as its count says.
pub open spec fn carried_prefixes(order: ByteOrder, data: Seq<u8>) -> Set<u32> {
    entries_below(data, leading_count(order, data))
}

/// How many bytes of a request follow the head that holds its count, as far as a `u64` can say.
pub open spec fn rest_len(order: ByteOrder, head: Seq<u8>) -> nat {
    let len = 4 * leading_count(order, head);
    if len <= u64::MAX {
        len
    } else {
        u64::MAX as nat
    }
}

/// The first `len` bytes of a stream, or all that there are.
pub open spec fn at_most(stream: Seq<u8>, len: nat) -> Seq<u8> {
    if len <= stream.len() {
        stream.take(len as int)
    } else {
        stream
    }
}

/// What a reader takes from a stream that starts with a request: the head, then as many bytes as
/// the head calls for.
pub open spec fn request_frame(order: ByteOrder, stream: Seq<u8>) -> Seq<u8> {
    at_most(stream, 8 + rest_len(order, at_most(stream, 8)))
}

proof fn lemma_entries(prefixes: Seq<u32>)
    ensures
        entries(prefixes).len() == 4 * prefixes.len(),
        forall|k: int|
            0 <= k < prefixes.len() ==> entries(prefixes).subrange(4 * k, 4 * k + 4)
                == crate::bytes::be_bytes(#[trigger] prefixes[k] as nat, 4),
    decreases prefixes.len(),
{
    if prefixes.len() > 0 {
        let shorter = prefixes.drop_last();
        let last = crate::bytes::be_bytes(prefixes.last() as nat, 4);
        lemma_entries(shorter);
        crate::bytes::lemma_be_bytes_len(prefixes.last() as nat, 4);
        assert forall|k: int| 0 <= k < prefixes.len() implies entries(prefixes).subrange(
            4 * k,
            4 * k + 4,
        ) == crate::bytes::be_bytes(#[trigger] prefixes[k] as nat, 4) by {
            if k < shorter.len() {
                assert(prefixes[k] == shorter[k]);
                assert(entries(prefixes).subrange(4 * k, 4 * k + 4) =~= entries(shorter).subrange(
                    4 * k,
                    4 * k + 4,
                ));
            } else {
                assert(entries(prefixes).subrange(4 * k, 4 * k + 4) =~= last);
            }
        }
    }
}

/// Position by position, a request holds the prefixes in ascending order, whatever follows it in
/// the stream.
pub proof fn lemma_request_entries(order: ByteOrder, prefixes: Set<u32>, rest: Seq<u8>)
    ensures
        forall|k: int|
            0 <= k < crate::prefixes::ascending(prefixes).len() ==> #[trigger] entry(
                request_bytes(order, prefixes) + rest,
                k,
            ) == crate::prefixes::ascending(prefixes)[k],
        request_bytes(order, prefixes).len() == 8 + 4 * prefixes.len(),
{
    let listed = crate::prefixes::ascending(prefixes);
    let data = request_bytes(order, prefixes) + rest;
    crate::prefixes::lemma_ascending(prefixes);
    lemma_entries(listed);
    crate::bytes::lemma_span_8();
    crate::bytes::lemma_span_4();
    crate::bytes::lemma_ordered_round_trip(order, prefixes.len(), 8);
    assert forall|k: int| 0 <= k < listed.len() implies #[trigger] entry(data, k) == listed[k] by {
        crate::bytes::lemma_be_round_trip(listed[k] as nat, 4);
        crate::bytes::lemma_window_inside(data, 8 + 4 * k, 4);
        assert(data.subrange(8 + 4 * k, 8 + 4 * k + 4) =~= entries(listed).subrange(
            4 * k,
            4 * k + 4,
        ));
    }
}

/// A request carries the prefixes it was made for, whatever follows it in the stream.
pub proof fn lemma_request_round_trip(order: ByteOrder, prefixes: Set<u32>, rest: Seq<u8>)
    ensures
        leading_count(order, request_bytes(order, prefixes) + rest) == prefixes.len(),
        carried_prefixes(order, request_bytes(order, prefixes) + rest) == prefixes,
        request_bytes(order, prefixes).len() == 8 + 4 * prefixes.len(),
{
    let listed = crate::prefixes::ascending(prefixes);
    let head = crate::bytes::ordered_bytes(order, prefixes.len(), 8);
    let data = request_bytes(order, prefixes) + rest;
    crate::prefixes::lemma_ascending(prefixes);
    lemma_request_entries(order, prefixes, rest);
    crate::bytes::lemma_span_8();
    crate::bytes::lemma_ordered_round_trip(order, prefixes.len(), 8);
    assert(crate::bytes::window(data, 0, 8) =~= head);
    assert forall|prefix: u32| carried_prefixes(order, data).contains(prefix)
        <==> prefixes.contains(prefix) by {
        if carried_prefixes(order, data).contains(prefix) {
            let k = choose|k: int|
                0 <= k < leading_count(order, data) && #[trigger] entry(data, k) == prefix;
            assert(listed[k] == prefix);
            assert(listed.contains(prefix));
        }
        if prefixes.contains(prefix) {
            assert(listed.contains(prefix));
            let k = choose|k: int| 0 <= k < listed.len() && listed[k] == prefix;
            assert(entry(data, k) == prefix);
        }
    }
    assert(carried_prefixes(order, data) =~= prefixes);
}

/// A response reports the count it was made for, whatever follows it in the stream.
pub proof fn lemma_response_round_trip(order: ByteOrder, count: u64, rest: Seq<u8>)
    ensures
        leading_count(order, response_bytes(order, count) + rest) == count,
        response_bytes(order, count).len() == 8,
{
    crate::bytes::lemma_span_8();
    crate::bytes::lemma_ordered_round_trip(order, count as nat, 8);
    assert(crate::bytes::window(response_bytes(order, count) + rest, 0, 8) =~= response_bytes(
        order,
        count,
    ));
}

/// What a reader takes from a stream carries the same prefixes as the whole stream.
pub proof fn lemma_request_frame_suffices(order: ByteOrder, stream: Seq<u8>)
    requires
        stream.len() <= u64::MAX,
    ensures
        leading_count(order, request_frame(order, stream)) == leading_count(order, stream),
        carried_prefixes(order, request_frame(order, stream)) == carried_prefixes(order, stream),
{
    let head = at_most(stream, 8);
    let frame = request_frame(order, stream);
    let count = leading_count(order, stream);
    assert(crate::bytes::window(head, 0, 8) =~= crate::bytes::window(stream, 0, 8));
    assert(crate::bytes::window(frame, 0, 8) =~= crate::bytes::window(stream, 0, 8));
    assert forall|k: int| 0 <= k < count implies #[trigger] entry(frame, k) == entry(stream, k) by {
        assert(crate::bytes::window(frame, 8 + 4 * k, 4) =~= crate::bytes::window(
            stream,
            8 + 4 * k,
            4,
        ));
    }
    assert forall|prefix: u32| carried_prefixes(order, frame).contains(prefix)
        <==> carried_prefixes(order, stream).contains(prefix) by {
        if carried_prefixes(order, stream).contains(prefix) {
            let k = choose|k: int| 0 <= k < count && #[trigger] entry(stream, k) == prefix;
            assert(entry(frame, k) == prefix);
        }
        if carried_prefixes(order, frame).contains(prefix) {
            let k = choose|k: int| 0 <= k < count && #[trigger] entry(frame, k) == prefix;
            assert(entry(stream, k) == prefix);
        }
    }
    assert(carried_prefixes(order, frame) =~= carried_prefixes(order, stream));
}

/// A reader takes from a stream exactly the request that it starts with, and nothing of what
/// follows.
pub proof fn lemma_request_frame_is_exact(order: ByteOrder, prefixes: Set<u32>, rest: Seq<u8>)
    ensures
        request_frame(order, request_bytes(order, prefixes) + rest) == request_bytes(
            order,
            prefixes,
        ),
{
    let request = request_bytes(order, prefixes);
    let stream = request + rest;
    lemma_request_round_trip(order, prefixes, rest);
    crate::prefixes::lemma_ascending(prefixes);
    assert(crate::bytes::window(at_most(stream, 8), 0, 8) =~= crate::bytes::window(stream, 0, 8));
    assert(request_frame(order, stream) =~= request);
}

/// The first eight bytes of a stream report the same count as the whole stream.
pub proof fn lemma_response_frame_suffices(order: ByteOrder, stream: Seq<u8>)
    ensures
        leading_count(order, at_most(stream, 8)) == leading_count(order, stream),
{
    assert(crate::bytes::window(at_most(stream, 8), 0, 8) =~= crate::bytes::window(stream, 0, 8));
}

/// The request for the given prefixes.
pub fn encode_request(order: ByteOrder, prefixes: &BTreeSet<u32>) -> (data: Vec<u8>)
    ensures
        data@ == request_bytes(order, prefixes@),
{
    let listed = snapshot(prefixes);
    let mut data: Vec<u8> = Vec::new();
    push_u64(&mut data, order, prefixes.len() as u64);
    let ghost head = crate::bytes::ordered_bytes(order, prefixes@.len(), 8);
    let mut i: usize = 0;
    assert(entries(listed@.take(0)) =~= Seq::empty());
    assert(data@ =~= head + entries(listed@.take(0)));
    while i < listed.len()
        invariant
            i <= listed@.len(),
            data@ == head + entries(listed@.take(i as int)),
        decreases listed.len() - i,
    {
        push_be_u32(&mut data, listed[i]);
        proof {
            let longer = listed@.take(i + 1);
            assert(longer.drop_last() =~= listed@.take(i as int));
            assert(longer.last() == listed@[i as int]);
            assert(data@ =~= head + entries(longer));
        }
        i += 1;
    }
    assert(listed@.take(i as int) =~= listed@);
    data
}

/// The count at the start of a request or of a response: after the first [`COUNT_LEN`] bytes, it
/// says how many prefixes of a request are still to be read.
pub fn read_count(order: ByteOrder, data: &[u8]) -> (count: u64)
    ensures
        count == leading_count(order, data@),
{
    read_u64(data, order)
}

/// How many bytes of a request follow the head that holds its count. A length that does not fit
/// into a `u64` is cut down to the largest one.
pub fn request_rest_len(order: ByteOrder, head: &[u8]) -> (len: u64)
    ensures
        len == rest_len(order, head@),
{
    let count = read_count(order, head);
    if count <= u64::MAX / 4 {
        4 * count
    } else {
        u64::MAX
    }
}

/// The prefixes that a request carries.
pub fn decode_request(order: ByteOrder, data: &[u8]) -> (prefixes: BTreeSet<u32>)
    ensures
        prefixes@ == carried_prefixes(order, data@),
{
    let count = read_count(order, data);
    let mut prefixes: BTreeSet<u32> = BTreeSet::new();
    let mut done: u64 = 0;
    let mut at: usize = COUNT_LEN;
    assert(entries_below(data@, 0) =~= Set::<u32>::empty());
    while done < count && at < data.len()
        invariant
            done <= count,
            at < data@.len() ==> at == 8 + 4 * done,
            at >= data@.len() ==> data@.len() <= 8 + 4 * done,
            prefixes@ == entries_below(data@, done as nat),
        decreases count - done,
    {
        proof {
            crate::bytes::lemma_be_value_bound(crate::bytes::window(data@, at as int, 4));
            crate::bytes::lemma_span_4();
            lemma_one_more_entry(data@, done as nat);
        }
        prefixes.insert(read_be_u32(data, at));
        assert(prefixes@ =~= entries_below(data@, (done + 1) as nat));
        if data.len() - at > 4 {
            at += 4;
        } else {
            at = data.len();
        }
        done += 1;
    }
    if done < count {
        prefixes.insert(0);
        proof {
            lemma_entries_past_end(data@, done as nat, count as nat);
        }
        assert(prefixes@ =~= entries_below(data@, count as nat));
    }
    prefixes
}

proof fn lemma_one_more_entry(data: Seq<u8>, count: nat)
    ensures
        entries_below(data, count + 1) == entries_below(data, count).insert(
            entry(data, count as int),
        ),
{
    let more = entries_below(data, count + 1);
    let fewer = entries_below(data, count);
    assert forall|prefix: u32| more.contains(prefix) <==> fewer.insert(
        entry(data, count as int),
    ).contains(prefix) by {
        if more.contains(prefix) {
            let k = choose|k: int| 0 <= k < count + 1 && #[trigger] entry(data, k) == prefix;
            if k < count {
                assert(fewer.contains(prefix));
            }
        }
        if fewer.contains(prefix) {
            let k = choose|k: int| 0 <= k < count && #[trigger] entry(data, k) == prefix;
            assert(0 <= k < count + 1 && entry(data, k) == prefix);
        }
    }
    assert(more =~= fewer.insert(entry(data, count as int)));
}

/// A position that lies past the end of the data holds the prefix zero.
pub proof fn lemma_entry_past_end(data: Seq<u8>, k: int)
    requires
        data.len() <= 8 + 4 * k,
    ensures
        entry(data, k) == 0,
{
    assert(crate::bytes::window(data, 8 + 4 * k, 4) =~= seq![0u8, 0u8, 0u8, 0u8]);
    reveal_with_fuel(crate::bytes::be_value, 5);
}

/// Positions past the end of the data add the prefix zero and no other.
proof fn lemma_entries_past_end(data: Seq<u8>, inside: nat, count: nat)
    requires
        data.len() <= 8 + 4 * inside,
        inside < count,
    ensures
        entries_below(data, count) == entries_below(data, inside).insert(0),
    decreases count,
{
    let last = (count - 1) as nat;
    lemma_one_more_entry(data, last);
    lemma_entry_past_end(data, last as int);
    if inside < last {
        lemma_entries_past_end(data, inside, last);
        assert(entries_below(data, inside).insert(0).insert(0) =~= entries_below(
            data,
            inside,
        ).insert(0));
    }
}

/// The response that reports the given count.
pub fn encode_response(order: ByteOrder, count: u64) -> (data: Vec<u8>)
    ensures
        data@ == response_bytes(order, count),
{
    let mut data: Vec<u8> = Vec::new();
    push_u64(&mut data, order, count);
    assert(data@ =~= response_bytes(order, count));
    data
}

} // verus!
