//! What holds of the buffer across several of its operations.

use crate::active::has_size;
use crate::buffer::{
    are_pending, can_count, collected, flushed, keyed_by_signature, loaded, marked_in, pending,
    pending_samples, Entries,
};
use crate::error::BufferErrorView;
use crate::record::{AggregatedView, RecordView};
use crate::signature::signature_of;
use crate::storage::{decoded, decoded_all, decoded_row, row_of, storable, RowView};
use crate::time::{rfc3339_text, Timestamp};
use vstd::multiset::Multiset;
use vstd::prelude::*;

verus! {

/// One exception of a signature: when it was counted, and its record.
pub struct Event {
    /// When it was counted.
    pub now: Timestamp,
    /// Its record.
    pub record: RecordView,
}

/// `m` with exceptions of one signature counted, in order.
pub open spec fn collected_all(m: Entries, signature: Seq<char>, events: Seq<Event>) -> Entries
    decreases events.len(),
{
    if events.len() == 0 {
        m
    } else {
        collected(
            collected_all(m, signature, events.drop_last()),
            signature,
            events.last().now,
            events.last().record,
        )
    }
}

/// Exceptions of one new signature make one entry. It counts them all, keeps
/// the first as its sample, and tells when the first and the latest came.
pub proof fn law_repeats_are_counted(m: Entries, signature: Seq<char>, events: Seq<Event>)
    requires
        !m.contains_key(signature),
        0 < events.len() <= u32::MAX,
    ensures
        collected_all(m, signature, events) == m.insert(
            signature,
            AggregatedView {
                signature,
                first_seen: events[0].now,
                last_seen: events.last().now,
                count: events.len() as u32,
                sample: events[0].record,
            },
        ),
    decreases events.len(),
{
    let before = events.drop_last();
    if before.len() == 0 {
        assert(collected_all(m, signature, before) == m);
    } else {
        law_repeats_are_counted(m, signature, before);
        assert(before[0] == events[0]);
    }
    assert(collected_all(m, signature, events) =~= m.insert(
        signature,
        AggregatedView {
            signature,
            first_seen: events[0].now,
            last_seen: events.last().now,
            count: events.len() as u32,
            sample: events[0].record,
        },
    ));
}

/// Exceptions of a signature that is there already add to its count, and move
/// the time of the latest. The sample and the time of the first stay.
pub proof fn law_repeats_add_to_the_count(m: Entries, signature: Seq<char>, events: Seq<Event>)
    requires
        m.contains_key(signature),
        events.len() > 0,
        m[signature].count + events.len() <= u32::MAX,
    ensures
        collected_all(m, signature, events) == m.insert(
            signature,
            AggregatedView {
                last_seen: events.last().now,
                count: (m[signature].count + events.len()) as u32,
                ..m[signature]
            },
        ),
    decreases events.len(),
{
    let before = events.drop_last();
    if before.len() == 0 {
        assert(collected_all(m, signature, before) == m);
    } else {
        law_repeats_add_to_the_count(m, signature, before);
    }
    assert(collected_all(m, signature, events) =~= m.insert(
        signature,
        AggregatedView {
            last_seen: events.last().now,
            count: (m[signature].count + events.len()) as u32,
            ..m[signature]
        },
    ));
}

/// Exceptions of two signatures may be counted in either order.
pub proof fn law_distinct_signatures_may_come_in_any_order(
    m: Entries,
    one: Seq<char>,
    first: Event,
    other: Seq<char>,
    second: Event,
)
    requires
        one != other,
    ensures
        collected(
            collected(m, one, first.now, first.record),
            other,
            second.now,
            second.record,
        ) == collected(
            collected(m, other, second.now, second.record),
            one,
            first.now,
            first.record,
        ),
{
    assert(collected(collected(m, one, first.now, first.record), other, second.now, second.record)
        =~= collected(
        collected(m, other, second.now, second.record),
        one,
        first.now,
        first.record,
    ));
}

/// `m` with exceptions counted, in order, each under the signature of its record.
pub open spec fn collected_mixed(m: Entries, events: Seq<Event>) -> Entries
    decreases events.len(),
{
    if events.len() == 0 {
        m
    } else {
        collected(
            collected_mixed(m, events.drop_last()),
            signature_of(events.last().record),
            events.last().now,
            events.last().record,
        )
    }
}

/// The signatures of exceptions, in order.
pub open spec fn signatures_of(events: Seq<Event>) -> Seq<Seq<char>> {
    Seq::new(events.len(), |i: int| signature_of(events[i].record))
}

/// How often each signature occurs among exceptions, in whatever order they come.
pub open spec fn occurrences(events: Seq<Event>) -> Multiset<Seq<char>> {
    signatures_of(events).to_multiset()
}

/// No exception is lost, whatever exceptions come in whatever order: an empty
/// buffer that counts them holds exactly the signatures that occur, each with
/// the number of its occurrences, and has as many entries as there are distinct
/// signatures. All along, one more exception can be counted.
pub proof fn law_each_signature_counts_its_occurrences(events: Seq<Event>)
    requires
        events.len() <= u32::MAX,
    ensures
        ({
            let held = collected_mixed(Map::empty(), events);
            &&& forall|s: Seq<char>| #[trigger]
                held.contains_key(s) <==> signatures_of(events).contains(s)
            &&& forall|s: Seq<char>| #[trigger]
                held.contains_key(s) ==> held[s].count == occurrences(events).count(s)
            &&& has_size(held, signatures_of(events).to_set().len())
            &&& events.len() < u32::MAX ==> forall|s: Seq<char>| #[trigger] can_count(held, s)
        }),
    decreases events.len(),
{
    broadcast use vstd::seq_lib::group_to_multiset_ensures;

    let held = collected_mixed(Map::empty(), events);
    let all = signatures_of(events);
    if events.len() == 0 {
        assert(all.to_set() =~= Set::empty());
        assert(held.dom() =~= Set::empty());
    } else {
        let before = events.drop_last();
        let earlier = signatures_of(before);
        let last = signature_of(events.last().record);
        let then = collected_mixed(Map::empty(), before);
        law_each_signature_counts_its_occurrences(before);
        assert(all == earlier.push(last));
        assert(occurrences(events) == occurrences(before).insert(last));
        assert forall|s: Seq<char>| all.contains(s) <==> (earlier.contains(s) || s == last) by {
            if earlier.contains(s) {
                let i = choose|i: int| 0 <= i < earlier.len() && earlier[i] == s;
                assert(all[i] == s);
            }
            if s == last {
                assert(all[earlier.len() as int] == s);
            }
            if all.contains(s) && s != last {
                let i = choose|i: int| 0 <= i < all.len() && all[i] == s;
                assert(earlier[i] == s);
            }
        }
        assert forall|s: Seq<char>| #[trigger] held.contains_key(s) implies held[s].count
            == occurrences(events).count(s) by {
            if s == last {
                if then.contains_key(s) {
                    assert(can_count(then, s));
                } else {
                    assert(!earlier.contains(s));
                }
            } else {
                assert(then.contains_key(s));
            }
        }
        law_collect_counts_distinct_signatures(
            then,
            earlier.to_set().len(),
            last,
            events.last().now,
            events.last().record,
        );
        assert(all.to_set() =~= earlier.to_set().insert(last));
        if then.contains_key(last) {
            assert(earlier.to_set().insert(last) =~= earlier.to_set());
        }
    }
    if events.len() < u32::MAX {
        assert forall|s: Seq<char>| #[trigger] can_count(held, s) by {
            if held.contains_key(s) {
                assert(occurrences(events).count(s) <= occurrences(events).len());
                assert(occurrences(events).len() == all.len());
            }
        }
    }
}

/// The order in which exceptions come does not matter to what is counted: the
/// same exceptions in another order leave the same signatures and counts.
pub proof fn law_counts_do_not_rest_on_the_order(one: Seq<Event>, other: Seq<Event>, s: Seq<char>)
    requires
        one.len() <= u32::MAX,
        occurrences(one) == occurrences(other),
    ensures
        collected_mixed(Map::empty(), one).contains_key(s) == collected_mixed(
            Map::empty(),
            other,
        ).contains_key(s),
        collected_mixed(Map::empty(), one).contains_key(s) ==> collected_mixed(
            Map::empty(),
            one,
        )[s].count == collected_mixed(Map::empty(), other)[s].count,
{
    broadcast use vstd::seq_lib::group_to_multiset_ensures;

    assert(one.len() == occurrences(one).len());
    assert(other.len() == occurrences(other).len());
    law_each_signature_counts_its_occurrences(one);
    law_each_signature_counts_its_occurrences(other);
    assert(signatures_of(one).contains(s) <==> occurrences(one).count(s) > 0);
    assert(signatures_of(other).contains(s) <==> occurrences(other).count(s) > 0);
}

/// To count an exception touches no other signature.
pub proof fn law_collect_touches_one_signature(
    m: Entries,
    signature: Seq<char>,
    now: Timestamp,
    record: RecordView,
    other: Seq<char>,
)
    requires
        other != signature,
    ensures
        collected(m, signature, now, record).contains_key(other) == m.contains_key(other),
        m.contains_key(other) ==> collected(m, signature, now, record)[other] == m[other],
{
}

/// To count an exception adds a signature exactly where it is new.
pub proof fn law_collect_counts_distinct_signatures(
    m: Entries,
    n: nat,
    signature: Seq<char>,
    now: Timestamp,
    record: RecordView,
)
    requires
        has_size(m, n),
    ensures
        has_size(
            collected(m, signature, now, record),
            if m.contains_key(signature) {
                n
            } else {
                n + 1
            },
        ),
{
    let after = collected(m, signature, now, record);
    assert(after.dom() =~= m.dom().insert(signature));
    if m.contains_key(signature) {
        assert(m.dom().insert(signature) =~= m.dom());
    }
}

/// What is loaded under a signature is the last that came under it; a
/// signature that nothing comes under keeps what it had.
pub proof fn law_load_overwrites_what_comes_and_keeps_the_rest(
    m: Entries,
    aggs: Seq<AggregatedView>,
    k: Seq<char>,
)
    ensures
        (forall|i: int| 0 <= i < aggs.len() ==> (#[trigger] aggs[i]).signature != k) ==> loaded(
            m,
            aggs,
        ).contains_key(k) == m.contains_key(k) && (m.contains_key(k) ==> loaded(m, aggs)[k] == m[k]),
        forall|i: int|
            0 <= i < aggs.len() && (#[trigger] aggs[i]).signature == k && (forall|j: int|
                i < j < aggs.len() ==> (#[trigger] aggs[j]).signature != k) ==> loaded(
                m,
                aggs,
            ).contains_key(k) && loaded(m, aggs)[k] == aggs[i],
    decreases aggs.len(),
{
    if aggs.len() > 0 {
        let before = aggs.drop_last();
        law_load_overwrites_what_comes_and_keeps_the_rest(m, before, k);
        let n = before.len() as int;
        if forall|i: int| 0 <= i < aggs.len() ==> (#[trigger] aggs[i]).signature != k {
            assert forall|i: int| 0 <= i < before.len() implies (#[trigger] before[i]).signature
                != k by {
                assert(before[i] == aggs[i]);
            }
            assert(aggs[n].signature != k);
        }
        assert forall|i: int|
            0 <= i < aggs.len() && (#[trigger] aggs[i]).signature == k && (forall|j: int|
                i < j < aggs.len() ==> (#[trigger] aggs[j]).signature != k) implies loaded(
            m,
            aggs,
        ).contains_key(k) && loaded(m, aggs)[k] == aggs[i] by {
            if i < n {
                assert(aggs[n].signature != k);
                assert(before[i] == aggs[i]);
                assert forall|j: int| i < j < before.len() implies (#[trigger] before[j]).signature
                    != k by {
                    assert(before[j] == aggs[j]);
                }
            }
        }
    }
}

/// Rows, as the database hands them out when nothing fails.
pub open spec fn fetched(rows: Seq<RowView>) -> Seq<Result<RowView, Seq<char>>> {
    Seq::new(rows.len(), |i: int| Ok(rows[i]))
}

/// Rows of which each can be read are read in order.
proof fn lemma_decoded_all(rows: Seq<RowView>, aggs: Seq<AggregatedView>)
    requires
        rows.len() == aggs.len(),
        forall|i: int|
            0 <= i < rows.len() ==> decoded_row(#[trigger] rows[i]) == Ok::<
                AggregatedView,
                BufferErrorView,
            >(aggs[i]),
    ensures
        decoded_all(fetched(rows)) == Ok::<Seq<AggregatedView>, BufferErrorView>(aggs),
    decreases rows.len(),
{
    if rows.len() == 0 {
        assert(aggs == Seq::<AggregatedView>::empty());
    } else {
        lemma_decoded_all(rows.drop_last(), aggs.drop_last());
        assert(fetched(rows).drop_last() == fetched(rows.drop_last()));
        assert(decoded(fetched(rows).last()) == decoded_row(rows.last()));
        assert(aggs.drop_last().push(aggs.last()) == aggs);
    }
}

/// What is flushed and loaded again is what was there: a buffer that loads the
/// rows of another holds all that the other held, and beyond it only what it
/// had under other signatures.
pub proof fn law_load_gives_back_what_was_flushed(m: Entries, rows: Seq<RowView>, base: Entries)
    requires
        keyed_by_signature(m),
        flushed(m, rows),
        forall|k: Seq<char>| #[trigger] m.contains_key(k) ==> storable(m[k]),
    ensures
        decoded_all(fetched(rows)) is Ok,
        loaded(base, decoded_all(fetched(rows))->Ok_0) == base.union_prefer_right(m),
{
    let aggs = Seq::new(rows.len(), |i: int| m[rows[i].signature]);
    assert forall|i: int| 0 <= i < rows.len() implies decoded_row(#[trigger] rows[i]) == Ok::<
        AggregatedView,
        BufferErrorView,
    >(aggs[i]) by {
        assert(m.contains_key(rows[i].signature));
    }
    lemma_decoded_all(rows, aggs);
    let after = loaded(base, aggs);
    let whole = base.union_prefer_right(m);
    assert forall|k: Seq<char>|
        #![trigger after.dom().contains(k)]
        #![trigger whole.dom().contains(k)]
        after.dom().contains(k) == whole.dom().contains(k) && (after.dom().contains(k) ==> after[k]
            == whole[k]) by {
        law_load_overwrites_what_comes_and_keeps_the_rest(base, aggs, k);
        if m.contains_key(k) {
            let i = choose|i: int| 0 <= i < rows.len() && (#[trigger] rows[i]).signature == k;
            assert(aggs[i] == m[k]);
            assert(aggs[i].signature == k);
            assert forall|j: int| i < j < aggs.len() implies (#[trigger] aggs[j]).signature != k by {
                assert(rows[i].signature != rows[j].signature);
                assert(m.contains_key(rows[j].signature));
            }
        } else {
            assert forall|j: int| 0 <= j < aggs.len() implies (#[trigger] aggs[j]).signature != k by {
                assert(m.contains_key(rows[j].signature));
            }
        }
    }
    assert(after =~= whole);
}

/// A restart loses nothing: an empty buffer that loads the rows of another
/// holds exactly what the other held.
pub proof fn law_restart_restores_the_buffer(m: Entries, rows: Seq<RowView>)
    requires
        keyed_by_signature(m),
        flushed(m, rows),
        forall|k: Seq<char>| #[trigger] m.contains_key(k) ==> storable(m[k]),
    ensures
        decoded_all(fetched(rows)) is Ok,
        loaded(Map::empty(), decoded_all(fetched(rows))->Ok_0) == m,
{
    law_load_gives_back_what_was_flushed(m, rows, Map::empty());
    assert(Map::<Seq<char>, AggregatedView>::empty().union_prefer_right(m) =~= m);
}

/// To flush twice stores the same rows.
pub proof fn law_flush_stores_the_same_rows(m: Entries, first: Seq<RowView>, second: Seq<RowView>)
    requires
        keyed_by_signature(m),
        flushed(m, first),
        flushed(m, second),
    ensures
        first.to_set() == second.to_set(),
{
    assert forall|row: RowView| first.to_set().contains(row) implies second.to_set().contains(
        row,
    ) by {
        lemma_flushed_row(m, first, second, row);
    }
    assert forall|row: RowView| second.to_set().contains(row) implies first.to_set().contains(
        row,
    ) by {
        lemma_flushed_row(m, second, first, row);
    }
    assert(first.to_set() =~= second.to_set());
}

proof fn lemma_flushed_row(m: Entries, first: Seq<RowView>, second: Seq<RowView>, row: RowView)
    requires
        keyed_by_signature(m),
        flushed(m, first),
        flushed(m, second),
        first.contains(row),
    ensures
        second.contains(row),
{
    let i = choose|i: int| 0 <= i < first.len() && first[i] == row;
    assert(m.contains_key(first[i].signature));
    let j = choose|j: int| 0 <= j < second.len() && (#[trigger] second[j]).signature
        == first[i].signature;
    assert(second[j] == row_of(m[second[j].signature]));
    assert(second[j] == row);
}

/// A signature waits to be reported after marking exactly where it did before
/// and was not marked.
pub proof fn law_marked_signatures_do_not_wait(
    m: Entries,
    signatures: Seq<Seq<char>>,
    k: Seq<char>,
)
    ensures
        pending(marked_in(m, signatures), k) == (pending(m, k) && !signatures.contains(k)),
{
}

/// A flush does not undo a mark: a signature that was marked is stored in a row
/// that is marked too.
pub proof fn law_flush_stores_the_marks(
    m: Entries,
    signatures: Seq<Seq<char>>,
    rows: Seq<RowView>,
    i: int,
)
    requires
        flushed(marked_in(m, signatures), rows),
        0 <= i < rows.len(),
        signatures.contains(rows[i].signature),
    ensures
        rows[i].reported == 1,
{
    let marked = marked_in(m, signatures);
    assert(marked.contains_key(rows[i].signature));
    assert(rows[i] == row_of(marked[rows[i].signature]));
}

/// To mark signatures that are not there changes nothing.
pub proof fn law_unknown_signatures_are_ignored(m: Entries, signatures: Seq<Seq<char>>)
    requires
        forall|i: int| 0 <= i < signatures.len() ==> !m.contains_key(#[trigger] signatures[i]),
    ensures
        marked_in(m, signatures) == m,
{
    assert forall|k: Seq<char>| m.contains_key(k) implies !signatures.contains(k) by {
        if signatures.contains(k) {
            let i = choose|i: int| 0 <= i < signatures.len() && signatures[i] == k;
            assert(!m.contains_key(signatures[i]));
        }
    }
    assert(marked_in(m, signatures) =~= m);
}

/// To mark the same signatures again changes nothing.
pub proof fn law_marking_again_changes_nothing(m: Entries, signatures: Seq<Seq<char>>)
    ensures
        marked_in(marked_in(m, signatures), signatures) == marked_in(m, signatures),
{
    assert(marked_in(marked_in(m, signatures), signatures) =~= marked_in(m, signatures));
}

/// Marking keeps the signatures, the counts, the times and the samples, but for
/// their marks: it sets those of the given signatures and takes none away.
pub proof fn law_marking_changes_only_the_mark(
    m: Entries,
    signatures: Seq<Seq<char>>,
    k: Seq<char>,
)
    ensures
        marked_in(m, signatures).contains_key(k) == m.contains_key(k),
        m.contains_key(k) ==> (AggregatedView {
            sample: m[k].sample,
            ..marked_in(m, signatures)[k]
        }) == m[k],
        m.contains_key(k) ==> (RecordView {
            reported: m[k].sample.reported,
            ..marked_in(m, signatures)[k].sample
        }) == m[k].sample,
        m.contains_key(k) ==> marked_in(m, signatures)[k].sample.reported == (m[k].sample.reported
            || signatures.contains(k)),
{
}

/// Where each signature that waits has been marked, no sample is left to report.
pub proof fn law_nothing_waits_when_all_is_reported(
    m: Entries,
    signatures: Seq<Seq<char>>,
    keys: Seq<Seq<char>>,
    samples: Seq<RecordView>,
)
    requires
        forall|k: Seq<char>| #[trigger] pending(m, k) ==> signatures.contains(k),
        pending_samples(marked_in(m, signatures), keys, samples),
    ensures
        samples.len() == 0,
{
    if samples.len() > 0 {
        let k = keys[0];
        assert(keys.contains(k));
        assert(pending(marked_in(m, signatures), k));
        assert(pending(m, k));
    }
}

/// The samples that wait are, whatever their order, one for each signature
/// that waits.
pub proof fn law_samples_are_as_many_as_signatures_that_wait(
    m: Entries,
    keys: Seq<Seq<char>>,
    samples: Seq<RecordView>,
)
    requires
        pending_samples(m, keys, samples),
    ensures
        samples.len() == m.dom().filter(|k: Seq<char>| !m[k].sample.reported).len(),
{
    let waiting = m.dom().filter(|k: Seq<char>| !m[k].sample.reported);
    assert(keys.to_set() =~= waiting) by {
        assert forall|k: Seq<char>| keys.to_set().contains(k) == waiting.contains(k) by {
            assert(keys.contains(k) <==> pending(m, k));
        }
    }
    keys.unique_seq_to_set();
}

/// The samples that wait are those of the signatures that are not marked, and
/// none of them is left out.
pub proof fn law_every_waiting_sample_is_listed(m: Entries, samples: Seq<RecordView>)
    requires
        are_pending(m, samples),
    ensures
        forall|k: Seq<char>|
            m.contains_key(k) && !(#[trigger] m[k]).sample.reported ==> samples.contains(m[k].sample),
        forall|i: int|
            0 <= i < samples.len() ==> !(#[trigger] samples[i]).reported && exists|k: Seq<char>|
                m.contains_key(k) && (#[trigger] m[k]).sample == samples[i],
{
    let keys = choose|keys: Seq<Seq<char>>| #[trigger] pending_samples(m, keys, samples);
    assert forall|k: Seq<char>| m.contains_key(k) && !(#[trigger] m[k]).sample.reported implies samples.contains(
        m[k].sample,
    ) by {
        assert(pending(m, k));
        assert(keys.contains(k));
        let i = choose|i: int| 0 <= i < keys.len() && keys[i] == k;
        assert(samples[i] == m[k].sample);
    }
    assert forall|i: int| 0 <= i < samples.len() implies !(#[trigger] samples[i]).reported
        && exists|k: Seq<char>| m.contains_key(k) && (#[trigger] m[k]).sample == samples[i] by {
        assert(keys.contains(keys[i]));
        assert(pending(m, keys[i]));
        assert(m[keys[i]].sample == samples[i]);
    }
}

/// Each signature is stored in a row of its own, which tells its count, its times,
/// its sample and its mark.
pub proof fn law_every_signature_is_stored(m: Entries, rows: Seq<RowView>, k: Seq<char>)
    requires
        flushed(m, rows),
        m.contains_key(k),
    ensures
        exists|i: int|
            0 <= i < rows.len() && (#[trigger] rows[i]).signature == k && rows[i].count
                == m[k].count && rows[i].first_seen == rfc3339_text(m[k].first_seen)
                && rows[i].last_seen == rfc3339_text(m[k].last_seen) && rows[i].sample == Ok::<
                RecordView,
                Seq<char>,
            >(m[k].sample) && (rows[i].reported != 0) == m[k].sample.reported,
{
    let i = choose|i: int| 0 <= i < rows.len() && (#[trigger] rows[i]).signature == k;
    assert(rows[i] == row_of(m[rows[i].signature]));
}

} // verus!
