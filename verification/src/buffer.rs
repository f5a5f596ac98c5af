//! The buffer in which exceptions are aggregated by signature.

use crate::active::{
    contents, count_or_insert, empty, entries, find, has, has_size, holds_nothing, lists, mark,
    nothing, put, size,
};
use crate::error::{BufferErrorView, BufferResult};
use crate::record::{
    aggregated_views, record_views, AggregatedException, AggregatedView, ExceptionRecord,
    RecordView,
};
use crate::signature::{compute_signature, signature_of};
use crate::storage::{
    decoded_all, decoded_all_view, decoded_row, encode_row, fetched_views, load_all, row_of,
    row_views, storable, FetchedRow, RowView, StoredRow,
};
use crate::text::texts;
use crate::time::{utc_now, Timestamp};
use dashmap::DashMap;
use vstd::prelude::*;

verus! {

/// Aggregates exceptions by their signatures.
///
/// What it holds goes to the database as rows, and comes back from there.
#[derive(Debug)]
pub struct ExceptionBuffer {
    active: DashMap<String, AggregatedException>,
}

/// What a buffer holds: for each signature, its exceptions.
pub type Entries = Map<Seq<char>, AggregatedView>;

impl View for ExceptionBuffer {
    type V = Entries;

    closed spec fn view(&self) -> Entries {
        contents(self.active)
    }
}

/// Whether each of `m` stands under its own signature.
pub open spec fn keyed_by_signature(m: Entries) -> bool {
    forall|k: Seq<char>| #[trigger] m.contains_key(k) ==> m[k].signature == k
}

/// `m` with one more exception of the given signature.
pub open spec fn collected(
    m: Entries,
    signature: Seq<char>,
    now: Timestamp,
    record: RecordView,
) -> Entries {
    m.insert(
        signature,
        if m.contains_key(signature) {
            m[signature].again(now)
        } else {
            AggregatedView::first(signature, now, record)
        },
    )
}

/// Whether one more exception of the given signature can be counted.
pub open spec fn can_count(m: Entries, signature: Seq<char>) -> bool {
    m.contains_key(signature) ==> m[signature].count < u32::MAX
}

/// `m` with each of `aggs`, in order, put under its signature.
pub open spec fn loaded(m: Entries, aggs: Seq<AggregatedView>) -> Entries
    decreases aggs.len(),
{
    if aggs.len() == 0 {
        m
    } else {
        loaded(m, aggs.drop_last()).insert(aggs.last().signature, aggs.last())
    }
}

/// `m` with the samples of the given signatures marked as reported.
pub open spec fn marked_in(m: Entries, signatures: Seq<Seq<char>>) -> Entries {
    Map::new(
        |k: Seq<char>| m.contains_key(k),
        |k: Seq<char>|
            if signatures.contains(k) {
                m[k].marked()
            } else {
                m[k]
            },
    )
}

/// Whether `rows` store what `m` holds, each signature in one row.
pub open spec fn flushed(m: Entries, rows: Seq<RowView>) -> bool {
    &&& forall|i: int|
        0 <= i < rows.len() ==> m.contains_key((#[trigger] rows[i]).signature) && rows[i] == row_of(
            m[rows[i].signature],
        )
    &&& forall|i: int, j: int|
        0 <= i < j < rows.len() ==> (#[trigger] rows[i]).signature != (#[trigger] rows[j]).signature
    &&& forall|k: Seq<char>| #[trigger]
        m.contains_key(k) ==> exists|i: int| 0 <= i < rows.len() && (#[trigger] rows[i]).signature == k
    &&& forall|i: int|
        0 <= i < rows.len() && storable(m[(#[trigger] rows[i]).signature]) ==> decoded_row(rows[i])
            == Ok::<AggregatedView, BufferErrorView>(m[rows[i].signature])
}

/// Whether the exceptions of `k` wait to be reported.
pub open spec fn pending(m: Entries, k: Seq<char>) -> bool {
    m.contains_key(k) && !m[k].sample.reported
}

/// Whether `samples` are the samples of the signatures `keys`, and these are
/// all that wait to be reported, each once.
pub open spec fn pending_samples(
    m: Entries,
    keys: Seq<Seq<char>>,
    samples: Seq<RecordView>,
) -> bool {
    &&& keys.len() == samples.len()
    &&& keys.no_duplicates()
    &&& forall|k: Seq<char>| #[trigger] keys.contains(k) <==> pending(m, k)
    &&& forall|i: int| 0 <= i < samples.len() ==> #[trigger] samples[i] == m[keys[i]].sample
}

/// Whether `samples` are, in some order, the samples of `m` that wait to be
/// reported.
pub open spec fn are_pending(m: Entries, samples: Seq<RecordView>) -> bool {
    exists|keys: Seq<Seq<char>>| #[trigger] pending_samples(m, keys, samples)
}

impl ExceptionBuffer {
    /// Whether each aggregated exception stands under its own signature.
    pub open spec fn wf(&self) -> bool {
        keyed_by_signature(self@)
    }

    /// An empty buffer.
    pub fn new() -> (res: Self)
        ensures
            res@ == Map::<Seq<char>, AggregatedView>::empty(),
            res.wf(),
    {
        ExceptionBuffer { active: empty() }
    }

    /// Counts an exception, at the time of the clock.
    ///
    /// The first of a signature is kept as the sample; later ones are counted,
    /// and move the time of the latest.
    pub fn collect(&mut self, record: ExceptionRecord)
        requires
            can_count(old(self)@, signature_of(record@)),
        ensures
            exists|now: Timestamp|
                final(self)@ == #[trigger] collected(
                    old(self)@,
                    signature_of(record@),
                    now,
                    record@,
                ),
            old(self).wf() ==> final(self).wf(),
    {
        let signature = compute_signature(&record);
        let now = utc_now();
        self.collect_signed(record, signature, now);
        assert(self@ == collected(old(self)@, signature_of(record@), now, record@));
    }

    /// Counts an exception, at the time of the clock, unless as many of its
    /// signature were counted as can be.
    pub fn try_collect(&mut self, record: ExceptionRecord) -> (res: bool)
        ensures
            res == can_count(old(self)@, signature_of(record@)),
            res ==> exists|now: Timestamp|
                final(self)@ == #[trigger] collected(
                    old(self)@,
                    signature_of(record@),
                    now,
                    record@,
                ),
            !res ==> final(self)@ == old(self)@,
            old(self).wf() ==> final(self).wf(),
    {
        let signature = compute_signature(&record);
        match self.get(signature.as_str()) {
            Some(found) => if found.count == u32::MAX {
                return false;
            },
            None => {},
        }
        self.collect(record);
        true
    }

    /// Counts an exception of the given signature, at the given time.
    pub fn collect_signed(&mut self, record: ExceptionRecord, signature: String, now: Timestamp)
        requires
            can_count(old(self)@, signature@),
        ensures
            final(self)@ == collected(old(self)@, signature@, now, record@),
            old(self).wf() ==> final(self).wf(),
    {
        let first = AggregatedException::first(signature.clone(), now, record);
        count_or_insert(&mut self.active, signature, now, first);
    }

    /// The rows that store what the buffer holds, in no certain order.
    pub fn flush(&self) -> (res: Vec<StoredRow>)
        requires
            self.wf(),
        ensures
            flushed(self@, row_views(res@)),
    {
        let all = entries(&self.active);
        let ghost m = self@;
        let mut out: Vec<StoredRow> = Vec::new();
        let mut i: usize = 0;
        while i < all.len()
            invariant
                i <= all@.len(),
                out@.len() == i,
                keyed_by_signature(m),
                lists(all@, m),
                forall|j: int|
                    0 <= j < i ==> (#[trigger] out@[j])@ == row_of(m[all@[j].0@]) && (storable(
                        m[all@[j].0@],
                    ) ==> decoded_row(out@[j]@) == Ok::<AggregatedView, BufferErrorView>(
                        m[all@[j].0@],
                    )),
            decreases all@.len() - i,
        {
            out.push(encode_row(&all[i].1));
            i = i + 1;
        }
        proof {
            let rows = row_views(out@);
            assert forall|j: int| 0 <= j < rows.len() implies (#[trigger] rows[j]).signature
                == all@[j].0@ by {
                assert(rows[j] == out@[j]@);
                assert(m.contains_key(all@[j].0@));
            }
            assert forall|j: int| 0 <= j < rows.len() implies m.contains_key(
                (#[trigger] rows[j]).signature,
            ) && rows[j] == row_of(m[rows[j].signature]) by {
                assert(rows[j] == out@[j]@);
            }
            assert forall|k: Seq<char>| #[trigger] m.contains_key(k) implies exists|j: int|
                0 <= j < rows.len() && (#[trigger] rows[j]).signature == k by {
                let j = choose|j: int| 0 <= j < all@.len() && (#[trigger] all@[j]).0@ == k;
                assert(rows[j].signature == k);
            }
            assert forall|j: int|
                0 <= j < rows.len() && storable(m[(#[trigger] rows[j]).signature]) implies decoded_row(
                rows[j],
            ) == Ok::<AggregatedView, BufferErrorView>(m[rows[j].signature]) by {
                assert(rows[j] == out@[j]@);
            }
        }
        out
    }

    /// Puts what fetched rows stand for into the buffer, over what stands
    /// there under the same signatures. Where a row cannot be read, the buffer
    /// stays as it is.
    pub fn load(&mut self, rows: &Vec<FetchedRow>) -> (res: BufferResult<Vec<AggregatedException>>)
        ensures
            decoded_all_view(res) == decoded_all(fetched_views(rows@)),
            match decoded_all(fetched_views(rows@)) {
                Ok(aggs) => final(self)@ == loaded(old(self)@, aggs),
                Err(_) => final(self)@ == old(self)@,
            },
            old(self).wf() ==> final(self).wf(),
    {
        let aggs = match load_all(rows) {
            Ok(aggs) => aggs,
            Err(e) => return Err(e),
        };
        let ghost all = aggregated_views(aggs@);
        let mut i: usize = 0;
        assert(all.take(0) == Seq::<AggregatedView>::empty());
        while i < aggs.len()
            invariant
                i <= aggs@.len(),
                all == aggregated_views(aggs@),
                self@ == loaded(old(self)@, all.take(i as int)),
                old(self).wf() ==> self.wf(),
            decreases aggs@.len() - i,
        {
            let agg = aggs[i].clone();
            proof {
                assert(all.take(i + 1).drop_last() == all.take(i as int));
                assert(all.take(i + 1).last() == agg@);
            }
            put(&mut self.active, agg.signature.clone(), agg);
            i = i + 1;
        }
        assert(all.take(aggs@.len() as int) == all);
        Ok(aggs)
    }

    /// Marks the samples of the given signatures as reported. Signatures that
    /// the buffer does not hold are ignored.
    pub fn mark_reported(&mut self, signatures: &Vec<String>)
        ensures
            final(self)@ == marked_in(old(self)@, texts(signatures@)),
            old(self).wf() ==> final(self).wf(),
    {
        let ghost all = texts(signatures@);
        let ghost before = self@;
        let mut i: usize = 0;
        assert(marked_in(before, all.take(0)) =~= before);
        while i < signatures.len()
            invariant
                i <= signatures@.len(),
                all == texts(signatures@),
                self@ == marked_in(before, all.take(i as int)),
            decreases signatures@.len() - i,
        {
            let ghost head = all.take(i as int);
            let ghost longer = all.take(i + 1);
            let ghost key = all[i as int];
            mark(&mut self.active, signatures[i].as_str());
            proof {
                assert(longer == head.push(key));
                assert forall|k: Seq<char>| longer.contains(k) <==> head.contains(k) || k == key by {
                    if head.contains(k) {
                        let j = choose|j: int| 0 <= j < head.len() && head[j] == k;
                        assert(longer[j] == k);
                    }
                    if k == key {
                        assert(longer[i as int] == k);
                    }
                    if longer.contains(k) && k != key {
                        let j = choose|j: int| 0 <= j < longer.len() && longer[j] == k;
                        assert(head[j] == k);
                    }
                }
                assert(self@ =~= marked_in(before, longer));
            }
            i = i + 1;
        }
        assert(all.take(signatures@.len() as int) == all);
    }

    /// How many signatures the buffer holds.
    pub fn len(&self) -> (res: usize)
        ensures
            has_size(self@, res as nat),
    {
        size(&self.active)
    }

    /// Whether the buffer holds nothing.
    pub fn is_empty(&self) -> (res: bool)
        ensures
            res == (self@ == Map::<Seq<char>, AggregatedView>::empty()),
    {
        holds_nothing(&self.active)
    }

    /// Whether the buffer holds exceptions of the given signature.
    pub fn contains_signature(&self, signature: &str) -> (res: bool)
        ensures
            res == self@.contains_key(signature@),
    {
        has(&self.active, signature)
    }

    /// The exceptions of the given signature.
    pub fn get(&self, signature: &str) -> (res: Option<AggregatedException>)
        ensures
            match res {
                Some(found) => self@.contains_key(signature@) && found@ == self@[signature@],
                None => !self@.contains_key(signature@),
            },
    {
        find(&self.active, signature)
    }

    /// The samples that wait to be reported, in no certain order.
    pub fn unreported_samples(&self) -> (res: Vec<ExceptionRecord>)
        ensures
            are_pending(self@, record_views(res@)),
    {
        let (keys, samples) = self.unreported();
        assert(pending_samples(self@, texts(keys@), record_views(samples@)));
        samples
    }

    /// The signatures that wait to be reported, in no certain order, and the
    /// samples that stand under them.
    pub fn unreported(&self) -> (res: (Vec<String>, Vec<ExceptionRecord>))
        ensures
            pending_samples(self@, texts(res.0@), record_views(res.1@)),
    {
        let all = entries(&self.active);
        let ghost m = self@;
        let ghost mut keys: Seq<Seq<char>> = Seq::empty();
        let mut signatures: Vec<String> = Vec::new();
        let mut out: Vec<ExceptionRecord> = Vec::new();
        let mut i: usize = 0;
        assert(texts(signatures@) == keys);
        while i < all.len()
            invariant
                i <= all@.len(),
                lists(all@, m),
                keys == texts(signatures@),
                keys.len() == out@.len(),
                keys.no_duplicates(),
                forall|k: Seq<char>| #[trigger]
                    keys.contains(k) <==> exists|j: int|
                        0 <= j < i && (#[trigger] all@[j]).0@ == k && !m[k].sample.reported,
                forall|j: int| 0 <= j < out@.len() ==> (#[trigger] out@[j])@ == m[keys[j]].sample,
            decreases all@.len() - i,
        {
            let ghost key = all@[i as int].0@;
            let ghost before = keys;
            if !all[i].1.sample.reported {
                signatures.push(all[i].0.clone());
                out.push(all[i].1.sample.clone());
                proof {
                    assert(texts(signatures@) == before.push(key));
                    if before.contains(key) {
                        let j = choose|j: int|
                            0 <= j < i && (#[trigger] all@[j]).0@ == key && !m[key].sample.reported;
                        assert(all@[j].0@ != all@[i as int].0@);
                    }
                    keys = before.push(key);
                    assert forall|k: Seq<char>| #[trigger] keys.contains(k) <==> exists|j: int|
                        0 <= j < i + 1 && (#[trigger] all@[j]).0@ == k && !m[k].sample.reported by {
                        if keys.contains(k) {
                            let p = choose|p: int| 0 <= p < keys.len() && keys[p] == k;
                            if p < before.len() {
                                assert(before[p] == k);
                                assert(before.contains(k));
                            } else {
                                assert(all@[i as int].0@ == k);
                            }
                        }
                        if exists|j: int|
                            0 <= j < i + 1 && (#[trigger] all@[j]).0@ == k && !m[k].sample.reported {
                            let j = choose|j: int|
                                0 <= j < i + 1 && (#[trigger] all@[j]).0@ == k
                                    && !m[k].sample.reported;
                            if j < i {
                                assert(before.contains(k));
                                let p = choose|p: int| 0 <= p < before.len() && before[p] == k;
                                assert(keys[p] == k);
                            } else {
                                assert(keys[before.len() as int] == k);
                            }
                        }
                    }
                }
            } else {
                proof {
                    assert forall|k: Seq<char>| #[trigger] keys.contains(k) <==> exists|j: int|
                        0 <= j < i + 1 && (#[trigger] all@[j]).0@ == k && !m[k].sample.reported by {
                        if keys.contains(k) {
                            let j = choose|j: int|
                                0 <= j < i && (#[trigger] all@[j]).0@ == k && !m[k].sample.reported;
                            assert(all@[j].0@ == k);
                        }
                    }
                }
            }
            i = i + 1;
        }
        proof {
            let samples = record_views(out@);
            assert forall|k: Seq<char>| #[trigger] keys.contains(k) <==> pending(m, k) by {
                if pending(m, k) {
                    let j = choose|j: int| 0 <= j < all@.len() && (#[trigger] all@[j]).0@ == k;
                    assert(all@[j].0@ == k);
                }
            }
            assert(pending_samples(m, keys, samples));
        }
        (signatures, out)
    }
}

} // verus!
