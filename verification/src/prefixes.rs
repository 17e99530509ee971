//! Sets of four-byte key prefixes.

use std::collections::BTreeSet;

use vstd::prelude::*;

use crate::bytes::read_be_u32;

verus! {

/// The number of key bytes that decide whether a key is deleted.
pub const PREFIX_LEN: usize = 4;

/// The members of `prefixes` below `bound`, in ascending order.
pub open spec fn ascending_below(prefixes: Set<u32>, bound: nat) -> Seq<u32>
    decreases bound,
{
    if bound == 0 {
        Seq::empty()
    } else {
        let below = ascending_below(prefixes, (bound - 1) as nat);
        if prefixes.contains((bound - 1) as u32) {
            below.push((bound - 1) as u32)
        } else {
            below
        }
    }
}

/// The members of `prefixes` in ascending order, each once.
pub open spec fn ascending(prefixes: Set<u32>) -> Seq<u32> {
    ascending_below(prefixes, 0x1_0000_0000)
}

/// Each element of `s` is smaller than every later one.
pub open spec fn strictly_ascending(s: Seq<u32>) -> bool {
    forall|i: int, j: int| 0 <= i < j < s.len() ==> s[i] < s[j]
}

proof fn lemma_ascending_below(prefixes: Set<u32>, bound: nat)
    requires
        bound <= 0x1_0000_0000,
    ensures
        strictly_ascending(ascending_below(prefixes, bound)),
        forall|p: u32| #[trigger]
            ascending_below(prefixes, bound).contains(p) <==> prefixes.contains(p) && p < bound,
    decreases bound,
{
    if bound > 0 {
        let top = (bound - 1) as u32;
        let below = ascending_below(prefixes, top as nat);
        lemma_ascending_below(prefixes, top as nat);
        let all = ascending_below(prefixes, bound);
        assert forall|i: int| 0 <= i < below.len() implies below[i] < top by {
            assert(below.contains(below[i]));
        }
        assert forall|p: u32| #[trigger] all.contains(p) <==> prefixes.contains(p) && p < bound by {
            if prefixes.contains(p) && p < bound {
                if p < top {
                    assert(below.contains(p));
                    let i = choose|i: int| 0 <= i < below.len() && below[i] == p;
                    assert(all[i] == p);
                } else {
                    assert(all[all.len() - 1] == p);
                }
            }
            if all.contains(p) {
                let i = choose|i: int| 0 <= i < all.len() && all[i] == p;
                if i < below.len() {
                    assert(below[i] == p);
                    assert(below.contains(p));
                }
            }
        }
    }
}

/// `ascending` lists exactly the members of the set, in strictly ascending order, so the set and
/// the list determine each other.
pub proof fn lemma_ascending(prefixes: Set<u32>)
    ensures
        strictly_ascending(ascending(prefixes)),
        ascending(prefixes).to_set() == prefixes,
        forall|p: u32| #[trigger] ascending(prefixes).contains(p) <==> prefixes.contains(p),
        ascending(prefixes).len() == prefixes.len(),
        ascending(prefixes).len() <= 0x1_0000_0000,
{
    lemma_ascending_below(prefixes, 0x1_0000_0000);
    assert(ascending(prefixes).to_set() =~= prefixes);
    assert(ascending(prefixes).no_duplicates());
    ascending(prefixes).unique_seq_to_set();
    lemma_ascending_below_len(prefixes, 0x1_0000_0000);
}

proof fn lemma_ascending_below_len(prefixes: Set<u32>, bound: nat)
    ensures
        ascending_below(prefixes, bound).len() <= bound,
    decreases bound,
{
    if bound > 0 {
        lemma_ascending_below_len(prefixes, (bound - 1) as nat);
    }
}

/// Two strictly ascending lists of the same members are the same list.
pub proof fn lemma_strictly_ascending_unique(a: Seq<u32>, b: Seq<u32>)
    requires
        strictly_ascending(a),
        strictly_ascending(b),
        a.to_set() == b.to_set(),
    ensures
        a == b,
    decreases a.len(),
{
    if a.len() == 0 {
        if b.len() > 0 {
            assert(b.to_set().contains(b[0]));
            assert(a.contains(b[0]));
        }
        assert(a =~= b);
    } else {
        assert(a.to_set().contains(a[0]));
        assert(b.contains(a[0]));
        assert(a.to_set().contains(a.last()));
        assert(b.to_set().contains(b.last()));
        assert(b.contains(a.last()));
        assert(a.contains(b.last()));
        assert(a.last() == b.last());
        let short_a = a.drop_last();
        let short_b = b.drop_last();
        assert forall|p: u32| short_a.contains(p) implies short_b.contains(p) by {
            let i = choose|i: int| 0 <= i < short_a.len() && short_a[i] == p;
            assert(a[i] == p);
            assert(a.to_set().contains(p));
            assert(b.contains(p));
            let k = choose|k: int| 0 <= k < b.len() && b[k] == p;
            assert(short_b[k] == p);
        }
        assert forall|p: u32| short_b.contains(p) implies short_a.contains(p) by {
            let i = choose|i: int| 0 <= i < short_b.len() && short_b[i] == p;
            assert(b[i] == p);
            assert(b.to_set().contains(p));
            assert(a.contains(p));
            let k = choose|k: int| 0 <= k < a.len() && a[k] == p;
            assert(short_a[k] == p);
        }
        assert(short_a.to_set() =~= short_b.to_set());
        lemma_strictly_ascending_unique(short_a, short_b);
        assert(a =~= short_a.push(a.last()));
        assert(b =~= short_b.push(b.last()));
    }
}

/// The prefix of a key: its first four bytes as a big-endian number, if it has that many.
pub open spec fn key_prefix(key: Seq<u8>) -> Option<u32> {
    if key.len() >= PREFIX_LEN {
        Some(crate::bytes::be_value(key.take(PREFIX_LEN as int)) as u32)
    } else {
        None
    }
}

/// Whether a key starts with a member of `prefixes`.
pub open spec fn matches_prefix(prefixes: Set<u32>, key: Seq<u8>) -> bool {
    key_prefix(key) matches Some(prefix) && prefixes.contains(prefix)
}

/// The prefix of a key, if the key is long enough to have one.
pub fn prefix_of_key(key: &[u8]) -> (prefix: Option<u32>)
    ensures
        prefix == key_prefix(key@),
{
    if key.len() >= PREFIX_LEN {
        assert(crate::bytes::window(key@, 0, 4) =~= key@.take(4));
        Some(read_be_u32(key, 0))
    } else {
        None
    }
}

/// The members of `prefixes` as a list in ascending order.
pub fn snapshot(prefixes: &BTreeSet<u32>) -> (list: Vec<u32>)
    ensures
        list@ == ascending(prefixes@),
{
    let mut list: Vec<u32> = Vec::new();
    let ghost items = vstd::std_specs::iter::IteratorSpec::remaining(&prefixes.iter());
    for p in it: prefixes.iter()
        invariant
            it.seq() == items,
            list@.len() == it.index(),
            forall|i: int| 0 <= i < list@.len() ==> list@[i] == *it.seq()[i],
    {
        list.push(*p);
    }
    proof {
        assert(list@.len() == items.len());
        assert(list@ =~= items.unref());
        assert(vstd::laws_cmp::obeys_cmp::<&u32>());
        assert(vstd::std_specs::btree::increasing_seq(items));
        assert forall|i: int, j: int| 0 <= i < j < list@.len() implies list@[i] < list@[j] by {
            assert(vstd::std_specs::cmp::OrdSpec::cmp_spec(&items[i], &items[j]) is Less);
        }
        lemma_ascending(prefixes@);
        lemma_strictly_ascending_unique(list@, ascending(prefixes@));
    }
    list
}

/// Whether a strictly ascending list holds `wanted`, by binary search.
pub fn holds(list: &Vec<u32>, wanted: u32) -> (found: bool)
    requires
        strictly_ascending(list@),
    ensures
        found == list@.contains(wanted),
{
    let mut low: usize = 0;
    let mut high: usize = list.len();
    while low < high
        invariant
            low <= high <= list@.len(),
            strictly_ascending(list@),
            forall|i: int| 0 <= i < low ==> list@[i] < wanted,
            forall|i: int| high <= i < list@.len() ==> list@[i] > wanted,
        decreases high - low,
    {
        let middle: usize = low + (high - low) / 2;
        if list[middle] == wanted {
            return true;
        }
        if list[middle] < wanted {
            low = middle + 1;
        } else {
            high = middle;
        }
    }
    false
}

} // verus!
