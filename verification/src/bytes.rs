//! Fixed-width integers as bytes.
//!
//! Prefixes travel as big-endian `u32` values; counters travel as `u64` values in the byte order
//! of the machine that writes them, which the caller names with a [`ByteOrder`].

use vstd::prelude::*;

verus! {

/// The order in which the bytes of a counter are laid out.
#[derive(Clone, Copy, Debug, PartialEq, Eq, Structural)]
pub enum ByteOrder {
    /// The least significant byte comes first.
    Little,
    /// The most significant byte comes first.
    Big,
}

/// The number that `bytes` denotes, most significant byte first.
pub open spec fn be_value(bytes: Seq<u8>) -> nat
    decreases bytes.len(),
{
    if bytes.len() == 0 {
        0
    } else {
        be_value(bytes.drop_last()) * 256 + bytes.last() as nat
    }
}

/// The `width` low-order bytes of `value`, most significant byte first.
pub open spec fn be_bytes(value: nat, width: nat) -> Seq<u8>
    decreases width,
{
    if width == 0 {
        Seq::empty()
    } else {
        be_bytes(value / 256, (width - 1) as nat).push((value % 256) as u8)
    }
}

/// The number that `bytes` denotes in the given byte order.
pub open spec fn ordered_value(order: ByteOrder, bytes: Seq<u8>) -> nat {
    match order {
        ByteOrder::Big => be_value(bytes),
        ByteOrder::Little => be_value(bytes.reverse()),
    }
}

/// The `width` low-order bytes of `value` in the given byte order.
pub open spec fn ordered_bytes(order: ByteOrder, value: nat, width: nat) -> Seq<u8> {
    match order {
        ByteOrder::Big => be_bytes(value, width),
        ByteOrder::Little => be_bytes(value, width).reverse(),
    }
}

/// How many values `width` bytes can denote.
pub open spec fn span(width: nat) -> nat
    decreases width,
{
    if width == 0 {
        1
    } else {
        256 * span((width - 1) as nat)
    }
}

/// The byte of `data` at `at`, or zero past the end.
pub open spec fn byte_or_zero(data: Seq<u8>, at: int) -> u8 {
    if 0 <= at < data.len() {
        data[at]
    } else {
        0
    }
}

/// The `width` bytes of `data` from `at` on. Bytes past the end are zero.
pub open spec fn window(data: Seq<u8>, at: int, width: nat) -> Seq<u8> {
    Seq::new(width, |i: int| byte_or_zero(data, at + i))
}

pub proof fn lemma_span_4()
    ensures
        span(4) == 0x1_0000_0000,
{
    reveal_with_fuel(span, 5);
}

pub proof fn lemma_span_8()
    ensures
        span(8) == 0x1_0000_0000_0000_0000,
{
    reveal_with_fuel(span, 9);
}

pub proof fn lemma_be_value_bound(bytes: Seq<u8>)
    ensures
        be_value(bytes) < span(bytes.len()),
    decreases bytes.len(),
{
    if bytes.len() > 0 {
        lemma_be_value_bound(bytes.drop_last());
    }
}

pub proof fn lemma_be_bytes_len(value: nat, width: nat)
    ensures
        be_bytes(value, width).len() == width,
    decreases width,
{
    if width > 0 {
        lemma_be_bytes_len(value / 256, (width - 1) as nat);
    }
}

/// Reading back the big-endian bytes of a number that fits gives the number.
pub proof fn lemma_be_round_trip(value: nat, width: nat)
    requires
        value < span(width),
    ensures
        be_value(be_bytes(value, width)) == value,
        be_bytes(value, width).len() == width,
    decreases width,
{
    if width > 0 {
        lemma_be_round_trip(value / 256, (width - 1) as nat);
        let bytes = be_bytes(value, width);
        assert(bytes.drop_last() =~= be_bytes(value / 256, (width - 1) as nat));
        assert(bytes.last() == (value % 256) as u8);
    }
}

/// The bytes of the number that some bytes denote are those bytes.
pub proof fn lemma_be_bytes_of_value(bytes: Seq<u8>)
    ensures
        be_bytes(be_value(bytes), bytes.len()) == bytes,
    decreases bytes.len(),
{
    if bytes.len() > 0 {
        lemma_be_bytes_of_value(bytes.drop_last());
        assert(bytes.drop_last().push(bytes.last()) =~= bytes);
    } else {
        assert(be_bytes(0, 0) =~= bytes);
    }
}

/// Reading back the bytes of a number that fits gives the number, in either byte order.
pub proof fn lemma_ordered_round_trip(order: ByteOrder, value: nat, width: nat)
    requires
        value < span(width),
    ensures
        ordered_value(order, ordered_bytes(order, value, width)) == value,
        ordered_bytes(order, value, width).len() == width,
{
    lemma_be_round_trip(value, width);
    let bytes = be_bytes(value, width);
    assert(bytes.reverse().reverse() =~= bytes);
}

/// Bytes that lie wholly inside `data` are read as they stand.
pub proof fn lemma_window_inside(data: Seq<u8>, at: int, width: nat)
    requires
        0 <= at,
        at + width <= data.len(),
    ensures
        window(data, at, width) == data.subrange(at, at + width),
{
    assert(window(data, at, width) =~= data.subrange(at, at + width));
}

/// Appends the big-endian bytes of a prefix.
pub fn push_be_u32(out: &mut Vec<u8>, value: u32)
    ensures
        final(out)@ == old(out)@ + be_bytes(value as nat, 4),
{
    proof {
        reveal_with_fuel(be_bytes, 5);
    }
    let ghost before = out@;
    out.push((value / 0x100_0000) as u8);
    out.push((value / 0x1_0000 % 0x100) as u8);
    out.push((value / 0x100 % 0x100) as u8);
    out.push((value % 0x100) as u8);
    assert(out@ =~= before + be_bytes(value as nat, 4));
}

/// The number that the first four bytes of `data` from `at` on denote, most significant byte
/// first. Bytes past the end count as zero.
pub fn read_be_u32(data: &[u8], at: usize) -> (value: u32)
    ensures
        value == be_value(window(data@, at as int, 4)),
{
    let mut value: u32 = 0;
    let mut i: usize = 0;
    proof {
        reveal_with_fuel(span, 5);
    }
    while i < 4
        invariant
            i <= 4,
            span(4) == 0x1_0000_0000,
            value == be_value(window(data@, at as int, i as nat)),
        decreases 4 - i,
    {
        let byte: u8 = if at < data.len() && i < data.len() - at {
            data[at + i]
        } else {
            0
        };
        let ghost wide = window(data@, at as int, (i + 1) as nat);
        proof {
            assert(wide.drop_last() =~= window(data@, at as int, i as nat));
            assert(wide.last() == byte);
            lemma_be_value_bound(wide);
            lemma_span_monotone((i + 1) as nat, 4);
        }
        value = value * 256 + byte as u32;
        i += 1;
    }
    value
}

proof fn lemma_span_monotone(narrow: nat, wide: nat)
    requires
        narrow <= wide,
    ensures
        span(narrow) <= span(wide),
    decreases wide,
{
    if narrow < wide {
        lemma_span_monotone(narrow, (wide - 1) as nat);
    }
}

/// Appends the eight bytes of a counter.
pub fn push_u64(out: &mut Vec<u8>, order: ByteOrder, value: u64)
    ensures
        final(out)@ == old(out)@ + ordered_bytes(order, value as nat, 8),
{
    let mut little: Vec<u8> = Vec::new();
    let mut rest: u64 = value;
    let mut i: usize = 0;
    assert(be_bytes(rest as nat, 8) + little@.reverse() =~= be_bytes(value as nat, 8));
    while i < 8
        invariant
            i <= 8,
            little@.len() == i,
            be_bytes(value as nat, 8) == be_bytes(rest as nat, (8 - i) as nat) + little@.reverse(),
        decreases 8 - i,
    {
        let ghost before = little@;
        little.push((rest % 256) as u8);
        proof {
            let high = be_bytes((rest / 256) as nat, (7 - i) as nat);
            assert(be_bytes(rest as nat, (8 - i) as nat) == high.push((rest % 256) as u8));
            assert(high.push((rest % 256) as u8) + before.reverse() =~= high + little@.reverse());
        }
        rest = rest / 256;
        i += 1;
    }
    assert(be_bytes(rest as nat, 0) + little@.reverse() =~= little@.reverse());
    assert(little@.reverse().reverse() =~= little@);
    let ghost before = out@;
    let mut k: usize = 0;
    while k < 8
        invariant
            k <= 8,
            little@.len() == 8,
            order is Little ==> out@ == before + little@.take(k as int),
            order is Big ==> out@ == before + little@.reverse().take(k as int),
        decreases 8 - k,
    {
        let at: usize = match order {
            ByteOrder::Little => k,
            ByteOrder::Big => 7 - k,
        };
        out.push(little[at]);
        proof {
            match order {
                ByteOrder::Little => {
                    assert(out@ =~= before + little@.take(k + 1));
                },
                ByteOrder::Big => {
                    assert(out@ =~= before + little@.reverse().take(k + 1));
                },
            }
        }
        k += 1;
    }
    assert(little@.take(8) =~= little@);
    assert(little@.reverse().take(8) =~= little@.reverse());
}

/// The counter that the first eight bytes of `data` denote. Bytes past the end count as zero.
pub fn read_u64(data: &[u8], order: ByteOrder) -> (value: u64)
    ensures
        value == ordered_value(order, window(data@, 0, 8)),
{
    let ghost whole = window(data@, 0, 8);
    let ghost big = match order {
        ByteOrder::Big => whole,
        ByteOrder::Little => whole.reverse(),
    };
    let mut value: u64 = 0;
    let mut i: usize = 0;
    proof {
        lemma_span_8();
    }
    assert(big.take(0) =~= Seq::<u8>::empty());
    while i < 8
        invariant
            i <= 8,
            span(8) == 0x1_0000_0000_0000_0000,
            whole == window(data@, 0, 8),
            big == (match order {
                ByteOrder::Big => whole,
                ByteOrder::Little => whole.reverse(),
            }),
            value == be_value(big.take(i as int)),
        decreases 8 - i,
    {
        let at: usize = match order {
            ByteOrder::Big => i,
            ByteOrder::Little => 7 - i,
        };
        let byte: u8 = if at < data.len() {
            data[at]
        } else {
            0
        };
        proof {
            assert(big.take(i + 1).drop_last() =~= big.take(i as int));
            assert(big.take(i + 1).last() == byte);
            lemma_be_value_bound(big.take(i + 1));
            lemma_span_monotone((i + 1) as nat, 8);
        }
        value = value * 256 + byte as u64;
        i += 1;
    }
    assert(big.take(8) =~= big);
    value
}

} // verus!
