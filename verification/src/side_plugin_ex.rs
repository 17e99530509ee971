//! What a side plugin offers to ToplingDB, and how plugins are handed over.

use std::cmp::Ordering;

use vstd::prelude::*;

use crate::bytes::ByteOrder;

verus! {

/// The repository that a plugin is created in, by the address that the C side knows it by.
///
/// A plugin may hand the address back to the C side; it does not read what stands there.
pub struct SidePluginRepo {
    pub inner: usize,
}

/// A key transformation, by the address that the C side knows it by.
pub struct SliceTransform {
    pub inner: usize,
}

/// The four phases in which plugin state travels in a distributed compaction.
///
/// The serialising phases produce the bytes that go into the stream. The other two take the bytes
/// that came out of it: all that are left for a plugin that writes JSON, and as many as
/// [`crate::wire`] describes for one that writes the binary form. `order` is the byte order that
/// the nodes share.
pub trait SerDe {
    fn serialize_request(&self, order: ByteOrder) -> Vec<u8>;

    fn deserialize_request(&mut self, order: ByteOrder, data: &[u8]);

    fn serialize_response(&self, order: ByteOrder) -> Vec<u8>;

    fn deserialize_response(&mut self, order: ByteOrder, data: &[u8]);
}

/// How a plugin is shown and changed through the web interface.
///
/// `dump_options_json` typically holds two fields:
/// - `html` (bool): whether the answer is HTML or JSON, `true` by default
/// - `verbose` (int): how much detail is wanted, `0` by default
pub trait WebManip {
    fn view(&self, dump_options_json: &str, repo: &SidePluginRepo) -> Vec<u8>;

    fn update(&mut self, dump_options_json: &str, body_json: &str, repo: &SidePluginRepo);
}

/// The address that stands for a slice transform on the C side.
pub fn create_slice_transform_c_object(st: SliceTransform) -> (address: usize)
    ensures
        address == st.inner,
{
    st.inner
}

/// A comparator under construction: its name and the order it puts keys in.
///
/// The name is whatever the receiving side takes names as.
pub struct ComparatorCallback<N, F> {
    pub name: N,
    pub compare_fn: F,
}

/// Puts a comparator together from its parts.
pub fn make_comparator_callback<N, F: Fn(&[u8], &[u8]) -> Ordering>(
    name: N,
    compare_fn: F,
) -> (callback: ComparatorCallback<N, F>)
    ensures
        callback.name == name,
        callback.compare_fn == compare_fn,
{
    ComparatorCallback { name, compare_fn }
}

/// A comparator plugin: its name and what registers it under that name.
pub struct CompPluginEntry<N, R> {
    pub name: N,
    pub register: R,
}

/// A merge operator plugin: its name and what registers it under that name.
pub struct MergePluginEntry<N, R> {
    pub name: N,
    pub register: R,
}

/// A compaction filter factory plugin: its name and what registers it under that name.
pub struct CompFilterFactoryPluginEntry<N, R> {
    pub name: N,
    pub register: R,
}

/// A slice transform plugin: its name and what registers it under that name.
pub struct SliceTransformPluginEntry<N, R> {
    pub name: N,
    pub register: R,
}

/// The registrations to perform at startup, in order: every comparator, then every merge operator,
/// then every compaction filter factory, then every slice transform, each under its own name.
pub open spec fn all_registrations<N, R>(
    comparators: Seq<CompPluginEntry<N, R>>,
    merge_operators: Seq<MergePluginEntry<N, R>>,
    filter_factories: Seq<CompFilterFactoryPluginEntry<N, R>>,
    slice_transforms: Seq<SliceTransformPluginEntry<N, R>>,
) -> Seq<(N, R)> {
    comparators.map_values(|e: CompPluginEntry<N, R>| (e.name, e.register))
        + merge_operators.map_values(|e: MergePluginEntry<N, R>| (e.name, e.register))
        + filter_factories.map_values(|e: CompFilterFactoryPluginEntry<N, R>| (e.name, e.register))
        + slice_transforms.map_values(|e: SliceTransformPluginEntry<N, R>| (e.name, e.register))
}

/// Lists the registrations to perform at startup, in the order in which they are performed.
pub fn registrations<N: Copy, R: Copy>(
    comparators: &[CompPluginEntry<N, R>],
    merge_operators: &[MergePluginEntry<N, R>],
    filter_factories: &[CompFilterFactoryPluginEntry<N, R>],
    slice_transforms: &[SliceTransformPluginEntry<N, R>],
) -> (order: Vec<(N, R)>)
    ensures
        order@ == all_registrations(
            comparators@,
            merge_operators@,
            filter_factories@,
            slice_transforms@,
        ),
{
    let mut order: Vec<(N, R)> = Vec::new();
    let ghost first = comparators@.map_values(|e: CompPluginEntry<N, R>| (e.name, e.register));
    let ghost second = merge_operators@.map_values(
        |e: MergePluginEntry<N, R>| (e.name, e.register),
    );
    let ghost third = filter_factories@.map_values(
        |e: CompFilterFactoryPluginEntry<N, R>| (e.name, e.register),
    );
    let ghost fourth = slice_transforms@.map_values(
        |e: SliceTransformPluginEntry<N, R>| (e.name, e.register),
    );
    for i in 0..comparators.len()
        invariant
            first == comparators@.map_values(|e: CompPluginEntry<N, R>| (e.name, e.register)),
            order@ =~= first.take(i as int),
    {
        order.push((comparators[i].name, comparators[i].register));
    }
    for i in 0..merge_operators.len()
        invariant
            second == merge_operators@.map_values(
                |e: MergePluginEntry<N, R>| (e.name, e.register),
            ),
            order@ =~= first + second.take(i as int),
    {
        order.push((merge_operators[i].name, merge_operators[i].register));
    }
    for i in 0..filter_factories.len()
        invariant
            third == filter_factories@.map_values(
                |e: CompFilterFactoryPluginEntry<N, R>| (e.name, e.register),
            ),
            order@ =~= first + second + third.take(i as int),
    {
        order.push((filter_factories[i].name, filter_factories[i].register));
    }
    for i in 0..slice_transforms.len()
        invariant
            fourth == slice_transforms@.map_values(
                |e: SliceTransformPluginEntry<N, R>| (e.name, e.register),
            ),
            order@ =~= first + second + third + fourth.take(i as int),
    {
        order.push((slice_transforms[i].name, slice_transforms[i].register));
    }
    assert(fourth.take(fourth.len() as int) =~= fourth);
    order
}

} // verus!
