//! What holds of the plugin as a whole.

use vstd::prelude::*;

use crate::bytes::ByteOrder;
use crate::json::JsonModel;
use crate::prefix_delete_factory::PrefixDeleteFilter;

verus! {

/// A key is deleted exactly if it starts with the big-endian bytes of one of the prefixes.
pub proof fn law_match_is_big_endian_prefix(prefixes: Set<u32>, key: Seq<u8>)
    ensures
        crate::prefixes::matches_prefix(prefixes, key) <==> exists|prefix: u32|
            prefixes.contains(prefix) && (#[trigger] crate::bytes::be_bytes(
                prefix as nat,
                4,
            )).is_prefix_of(key),
{
    crate::bytes::lemma_span_4();
    if crate::prefixes::matches_prefix(prefixes, key) {
        let head = key.take(4);
        let prefix = crate::prefixes::key_prefix(key).unwrap();
        crate::bytes::lemma_be_value_bound(head);
        crate::bytes::lemma_be_bytes_of_value(head);
        assert(crate::bytes::be_bytes(prefix as nat, 4) =~= key.subrange(0, 4));
        assert(prefixes.contains(prefix) && crate::bytes::be_bytes(
            prefix as nat,
            4,
        ).is_prefix_of(key));
    }
    assert forall|prefix: u32|
        prefixes.contains(prefix) && (#[trigger] crate::bytes::be_bytes(
            prefix as nat,
            4,
        )).is_prefix_of(key) implies crate::prefixes::matches_prefix(prefixes, key) by {
        crate::bytes::lemma_be_round_trip(prefix as nat, 4);
        assert(key.take(4) =~= crate::bytes::be_bytes(prefix as nat, 4));
    }
}

/// Keys that agree in their first four bytes share their fate, whatever follows.
pub proof fn law_first_four_bytes_decide(prefixes: Set<u32>, one: Seq<u8>, other: Seq<u8>)
    requires
        one.len() >= 4,
        other.len() >= 4,
        one.take(4) == other.take(4),
    ensures
        crate::prefixes::matches_prefix(prefixes, one) == crate::prefixes::matches_prefix(
            prefixes,
            other,
        ),
{
}

/// A key of fewer than four bytes is never deleted.
pub proof fn law_short_keys_stay(prefixes: Set<u32>, key: Seq<u8>)
    requires
        key.len() < 4,
    ensures
        !crate::prefixes::matches_prefix(prefixes, key),
{
}

/// Without prefixes no key is deleted.
pub proof fn law_no_prefixes_delete_nothing(key: Seq<u8>)
    ensures
        !crate::prefixes::matches_prefix(Set::empty(), key),
{
}

/// How many of the keys start with one of the prefixes.
pub open spec fn removals(prefixes: Set<u32>, keys: Seq<Seq<u8>>) -> nat
    decreases keys.len(),
{
    if keys.len() == 0 {
        0
    } else {
        removals(prefixes, keys.drop_last()) + (if crate::prefixes::matches_prefix(
            prefixes,
            keys.last(),
        ) {
            1nat
        } else {
            0
        })
    }
}

/// Over a run of keys a filter keeps its prefixes and counts exactly the keys that it removes.
/// `states` holds the filter before the first key and after each key.
pub proof fn law_run_counts_removals(states: Seq<PrefixDeleteFilter>, keys: Seq<Seq<u8>>)
    requires
        states.len() == keys.len() + 1,
        forall|i: int|
            0 <= i < keys.len() ==> crate::prefix_delete_factory::after_key(
                #[trigger] states[i],
                keys[i],
                states[i + 1],
            ),
    ensures
        states.last().prefixes() == states.first().prefixes(),
        states.last().deleted() == states.first().deleted() + removals(
            states.first().prefixes(),
            keys,
        ),
    decreases keys.len(),
{
    if keys.len() > 0 {
        let shorter = states.drop_last();
        let n = keys.len() - 1;
        assert forall|i: int| 0 <= i < n implies crate::prefix_delete_factory::after_key(
            #[trigger] shorter[i],
            keys.drop_last()[i],
            shorter[i + 1],
        ) by {
            assert(shorter[i] == states[i]);
        }
        law_run_counts_removals(shorter, keys.drop_last());
        assert(shorter.last() == states[n]);
        assert(shorter.first() == states.first());
    }
}

/// The sum of the counts of several runs.
pub open spec fn sum(counts: Seq<u64>) -> nat
    decreases counts.len(),
{
    if counts.len() == 0 {
        0
    } else {
        sum(counts.drop_last()) + counts.last() as nat
    }
}

/// The total after several runs have ended, one after the other.
pub open spec fn total_after_runs(total: u64, counts: Seq<u64>) -> u64
    decreases counts.len(),
{
    if counts.len() == 0 {
        total
    } else {
        crate::prefix_delete_factory::total_after(
            total_after_runs(total, counts.drop_last()),
            counts.last(),
        )
    }
}

/// The total gathers what all runs deleted, modulo 2^64.
pub proof fn law_total_gathers_all_runs(total: u64, counts: Seq<u64>)
    ensures
        total_after_runs(total, counts) == (total + sum(counts)) % 0x1_0000_0000_0000_0000,
    decreases counts.len(),
{
    if counts.len() > 0 {
        law_total_gathers_all_runs(total, counts.drop_last());
    }
}

/// The order in which runs end does not matter to the total.
pub proof fn law_run_order_is_irrelevant(total: u64, one: Seq<u64>, other: Seq<u64>)
    requires
        one.to_multiset() == other.to_multiset(),
    ensures
        total_after_runs(total, one) == total_after_runs(total, other),
{
    let add_count = |so_far: nat, count: u64| so_far + count as nat;
    lemma_sum_is_fold(one);
    lemma_sum_is_fold(other);
    vstd::seq_lib::lemma_fold_left_permutation(one, other, add_count, 0nat);
    law_total_gathers_all_runs(total, one);
    law_total_gathers_all_runs(total, other);
}

proof fn lemma_sum_is_fold(counts: Seq<u64>)
    ensures
        sum(counts) == counts.fold_left(0nat, |so_far: nat, count: u64| so_far + count as nat),
    decreases counts.len(),
{
    if counts.len() > 0 {
        lemma_sum_is_fold(counts.drop_last());
    }
}

/// A moment in the life of a factory: its total, and every run it has begun so far. A run that
/// has ended is `None`.
pub struct Moment {
    pub total: u64,
    pub runs: Seq<Option<PrefixDeleteFilter>>,
}

/// What can happen to a factory and its filters between two moments.
pub enum Step {
    /// The factory makes the filter of a new run.
    Begin,
    /// The filter of a run decides on a key.
    Decide { run: int, key: Seq<u8> },
    /// A run ends, and its filter is gone.
    End { run: int },
}

/// A run that has begun and has not ended.
pub open spec fn is_live(moment: Moment, run: int) -> bool {
    0 <= run < moment.runs.len() && moment.runs[run] is Some
}

/// One step of a factory and its filters, as [`PrefixDeleteFilter::filter`],
/// [`PrefixDeleteFilter::finish`] and the factory's `create` perform it.
pub open spec fn leads_to(before: Moment, step: Step, after: Moment) -> bool {
    match step {
        Step::Begin => {
            &&& after.total == before.total
            &&& after.runs.len() == before.runs.len() + 1
            &&& after.runs.drop_last() == before.runs
            &&& after.runs.last() is Some
            &&& after.runs.last()->0.deleted() == 0
        },
        Step::Decide { run, key } => {
            &&& is_live(before, run)
            &&& is_live(after, run)
            &&& after.total == before.total
            &&& after.runs == before.runs.update(run, after.runs[run])
            &&& crate::prefix_delete_factory::after_key(
                before.runs[run]->0,
                key,
                after.runs[run]->0,
            )
        },
        Step::End { run } => {
            &&& is_live(before, run)
            &&& after.total == crate::prefix_delete_factory::total_after(
                before.total,
                before.runs[run]->0.deleted(),
            )
            &&& after.runs == before.runs.update(run, None)
        },
    }
}

/// Whether a step removes a key.
pub open spec fn removes(before: Moment, step: Step) -> bool {
    match step {
        Step::Decide { run, key } => crate::prefixes::matches_prefix(
            before.runs[run]->0.prefixes(),
            key,
        ),
        _ => false,
    }
}

/// How many steps of a history remove a key.
pub open spec fn removing_steps(history: Seq<Moment>, steps: Seq<Step>) -> nat
    decreases steps.len(),
{
    if steps.len() == 0 {
        0
    } else {
        removing_steps(history, steps.drop_last()) + (if removes(
            history[steps.len() - 1],
            steps.last(),
        ) {
            1nat
        } else {
            0
        })
    }
}

/// What the runs that have not ended have deleted so far.
pub open spec fn pending(runs: Seq<Option<PrefixDeleteFilter>>) -> nat
    decreases runs.len(),
{
    if runs.len() == 0 {
        0
    } else {
        pending(runs.drop_last()) + count_of(runs.last())
    }
}

/// What a run has deleted and not yet added to the total.
pub open spec fn count_of(run: Option<PrefixDeleteFilter>) -> nat {
    match run {
        Some(filter) => filter.deleted() as nat,
        None => 0,
    }
}

proof fn lemma_pending_update(
    runs: Seq<Option<PrefixDeleteFilter>>,
    at: int,
    run: Option<PrefixDeleteFilter>,
)
    requires
        0 <= at < runs.len(),
    ensures
        pending(runs.update(at, run)) == pending(runs) - count_of(runs[at]) + count_of(run),
    decreases runs.len(),
{
    let changed = runs.update(at, run);
    if at == runs.len() - 1 {
        assert(changed.drop_last() =~= runs.drop_last());
    } else {
        lemma_pending_update(runs.drop_last(), at, run);
        assert(changed.drop_last() =~= runs.drop_last().update(at, run));
    }
}

proof fn lemma_nothing_pending(runs: Seq<Option<PrefixDeleteFilter>>)
    requires
        forall|i: int| 0 <= i < runs.len() ==> (#[trigger] runs[i]) is None,
    ensures
        pending(runs) == 0,
    decreases runs.len(),
{
    if runs.len() > 0 {
        lemma_nothing_pending(runs.drop_last());
    }
}

/// However the steps of any number of runs interleave, no removal is lost or counted twice: at
/// every moment the total and what is still pending make up the removals so far, modulo 2^64.
pub proof fn law_no_removal_is_lost(history: Seq<Moment>, steps: Seq<Step>)
    requires
        history.len() == steps.len() + 1,
        history.first().runs.len() == 0,
        forall|i: int|
            0 <= i < steps.len() ==> leads_to(history[i], #[trigger] steps[i], history[i + 1]),
    ensures
        (history.last().total + pending(history.last().runs)) % 0x1_0000_0000_0000_0000 == (
        history.first().total + removing_steps(history, steps)) % 0x1_0000_0000_0000_0000,
    decreases steps.len(),
{
    if steps.len() > 0 {
        let n = steps.len() - 1;
        let earlier = history.drop_last();
        let fewer = steps.drop_last();
        assert forall|i: int| 0 <= i < fewer.len() implies leads_to(
            earlier[i],
            #[trigger] fewer[i],
            earlier[i + 1],
        ) by {
            assert(fewer[i] == steps[i]);
        }
        law_no_removal_is_lost(earlier, fewer);
        lemma_removing_steps_prefix(earlier, history, fewer);
        assert(leads_to(history[n], steps[n], history[n + 1]));
        lemma_one_step(history[n], steps[n], history[n + 1]);
    }
}

/// One step adds a removal to the total and what is pending, or nothing.
proof fn lemma_one_step(before: Moment, step: Step, after: Moment)
    requires
        leads_to(before, step, after),
    ensures
        (after.total + pending(after.runs)) % 0x1_0000_0000_0000_0000 == (before.total + pending(
            before.runs,
        ) + (if removes(before, step) {
            1int
        } else {
            0
        })) % 0x1_0000_0000_0000_0000,
{
    match step {
        Step::Begin => {},
        Step::Decide { run, .. } => {
            lemma_pending_update(before.runs, run, after.runs[run]);
        },
        Step::End { run } => {
            lemma_pending_update(before.runs, run, None);
        },
    }
}

proof fn lemma_removing_steps_prefix(one: Seq<Moment>, other: Seq<Moment>, steps: Seq<Step>)
    requires
        forall|i: int| 0 <= i < steps.len() ==> one[i] == other[i],
    ensures
        removing_steps(one, steps) == removing_steps(other, steps),
    decreases steps.len(),
{
    if steps.len() > 0 {
        lemma_removing_steps_prefix(one, other, steps.drop_last());
    }
}

/// Once all runs have ended, in whatever order and however their steps interleaved, the total has
/// grown by the number of removals, modulo 2^64.
pub proof fn law_total_counts_every_removal(history: Seq<Moment>, steps: Seq<Step>)
    requires
        history.len() == steps.len() + 1,
        history.first().runs.len() == 0,
        forall|i: int|
            0 <= i < steps.len() ==> leads_to(history[i], #[trigger] steps[i], history[i + 1]),
        forall|run: int| !is_live(history.last(), run),
    ensures
        history.last().total == (history.first().total + removing_steps(history, steps))
            % 0x1_0000_0000_0000_0000,
{
    let runs = history.last().runs;
    law_no_removal_is_lost(history, steps);
    assert forall|i: int| 0 <= i < runs.len() implies (#[trigger] runs[i]) is None by {
        assert(!is_live(history.last(), i));
    }
    lemma_nothing_pending(runs);
}

/// All runs of a factory add to its one total, while each run has its own prefixes and its own
/// count: a step of one run leaves every other run as it was, and only the end of a run changes
/// the total.
pub proof fn law_runs_share_only_the_total(before: Moment, step: Step, after: Moment, run: int)
    requires
        leads_to(before, step, after),
        is_live(before, run),
        match step {
            Step::Begin => true,
            Step::Decide { run: other, .. } => other != run,
            Step::End { run: other } => other != run,
        },
    ensures
        after.runs[run] == before.runs[run],
        step !is End ==> after.total == before.total,
{
    if step is Begin {
        assert(after.runs.drop_last()[run] == before.runs[run]);
    }
}

/// Different sets of prefixes travel as different requests.
pub proof fn law_requests_tell_prefixes_apart(order: ByteOrder, one: Set<u32>, other: Set<u32>)
    requires
        crate::wire::request_bytes(order, one) == crate::wire::request_bytes(order, other),
    ensures
        one == other,
{
    crate::wire::lemma_request_round_trip(order, one, Seq::empty());
    crate::wire::lemma_request_round_trip(order, other, Seq::empty());
}

/// A position of a request that lies past the end of the data holds the prefix zero.
pub proof fn law_missing_entries_are_zero(data: Seq<u8>, k: int)
    requires
        data.len() <= 8 + 4 * k,
    ensures
        crate::wire::entry(data, k) == 0,
{
    crate::wire::lemma_entry_past_end(data, k);
}

/// Receiving a document twice is the same as receiving it once.
pub proof fn law_update_is_idempotent(document: Option<JsonModel>, before: Set<u32>)
    ensures
        crate::prefix_delete_factory::prefixes_after(
            document,
            crate::prefix_delete_factory::prefixes_after(document, before),
        ) == crate::prefix_delete_factory::prefixes_after(document, before),
{
}

/// A document that names prefixes replaces those of every document before it.
pub proof fn law_last_update_wins(
    last: JsonModel,
    earlier: Option<JsonModel>,
    before: Set<u32>,
)
    requires
        crate::params::prefixes_field(last) is Some,
    ensures
        Some(
            crate::prefix_delete_factory::prefixes_after(
                Some(last),
                crate::prefix_delete_factory::prefixes_after(earlier, before),
            ),
        ) == crate::params::prefixes_field(last),
{
}

/// A factory that is created from the document that another one shows has the same prefixes and
/// the same choice of format.
pub proof fn law_view_configures_a_like_factory(
    prefixes: Set<u32>,
    total_deleted: u64,
    serialize_as_json: bool,
)
    ensures
        ({
            let shown = crate::prefix_delete_factory::view_document(
                prefixes,
                total_deleted,
                serialize_as_json,
            );
            &&& crate::prefix_delete_factory::configured_prefixes(shown) == prefixes
            &&& crate::prefix_delete_factory::configured_format(shown) == serialize_as_json
        }),
{
    crate::prefix_delete_factory::lemma_view_document(prefixes, total_deleted, serialize_as_json);
}

/// The choice of format does not travel: neither a request nor a response says anything of it.
pub proof fn law_format_does_not_travel(prefixes: Set<u32>, total_deleted: u64)
    ensures
        crate::params::serialize_as_json_field(
            crate::prefix_delete_factory::request_document(prefixes),
        ) is None,
        crate::params::serialize_as_json_field(
            crate::prefix_delete_factory::response_document(total_deleted),
        ) is None,
{
    crate::prefix_delete_factory::lemma_field_names();
}

} // verus!
