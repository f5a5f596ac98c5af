//! One cycle of reporting: what waits in the buffer is reported in one batch,
//! and marked as reported once it was.

use crate::buffer::{marked_in, pending, pending_samples, Entries, ExceptionBuffer};
use crate::error::CollectorResult;
use crate::ids::is_random_uuid;
use crate::record::{
    record_views, BatchStatus, ExceptionBatch, ReportResult, ReportTarget,
};
use crate::text::texts;
use vstd::prelude::*;
use vstd::string::*;

verus! {

/// A batch, with the signatures under which its records stand in the buffer.
#[derive(Debug)]
pub struct PendingBatch {
    /// The batch.
    pub batch: ExceptionBatch,
    /// The signatures of its records, in order.
    pub signatures: Vec<String>,
}

/// Whether `target` is GitHub, with no repository chosen yet.
pub open spec fn is_unchosen_repo(target: ReportTarget) -> bool {
    target matches ReportTarget::GitHub { repo, issue_url } && repo@ == ""@ && issue_url@ == ""@
}

/// Whether `pending` is the batch of all that waits in `m`: it waits to be
/// reported itself, for the component of its first record, under a random UUID.
pub open spec fn is_batch_of(pending: PendingBatch, m: Entries) -> bool {
    let records = record_views(pending.batch.records@);
    &&& pending_samples(m, texts(pending.signatures@), records)
    &&& records.len() > 0
    &&& is_random_uuid(pending.batch.id)
    &&& pending.batch.component@ == records[0].component
    &&& is_unchosen_repo(pending.batch.target)
    &&& pending.batch.status == BatchStatus::Pending
}

/// Whether a report reached all of `total` records.
pub open spec fn reached_all(outcome: CollectorResult<ReportResult>, total: nat) -> bool {
    match outcome {
        Ok(ReportResult::Success) => true,
        Ok(ReportResult::Partial { reported_count }) => reported_count == total,
        _ => false,
    }
}

/// Whether a report reached all of `total` records.
pub fn reaches_all(outcome: &CollectorResult<ReportResult>, total: usize) -> (res: bool)
    ensures
        res == reached_all(*outcome, total as nat),
{
    match outcome {
        Ok(ReportResult::Success) => true,
        Ok(ReportResult::Partial { reported_count }) => *reported_count == total,
        _ => false,
    }
}

/// Runs the cycles of reporting.
#[derive(Debug)]
pub struct PipelineRunner;

impl PipelineRunner {
    /// A runner.
    pub fn new() -> (res: Self)
        ensures
            res == PipelineRunner,
    {
        PipelineRunner
    }

    /// The batch of all that waits in the buffer; none where nothing waits, and
    /// then the cycle has succeeded.
    pub fn trigger_now(&self, buffer: &ExceptionBuffer) -> (res: Option<PendingBatch>)
        ensures
            match res {
                Some(pending) => is_batch_of(pending, buffer@),
                None => forall|k: Seq<char>| !#[trigger] pending(buffer@, k),
            },
    {
        let (signatures, records) = buffer.unreported();
        if records.len() == 0 {
            assert forall|k: Seq<char>| !#[trigger] pending(buffer@, k) by {
                assert(!texts(signatures@).contains(k));
            }
            return None;
        }
        let component = records[0].component.clone();
        let target = ReportTarget::GitHub {
            repo: String::from_str(""),
            issue_url: String::from_str(""),
        };
        let batch = ExceptionBatch::new(component.as_str(), records, target);
        Some(PendingBatch { batch, signatures })
    }

    /// Ends a cycle with the outcome of its report. Where that reached all the
    /// records, they are marked as reported; otherwise they wait for the next
    /// cycle.
    pub fn settle(
        &self,
        buffer: &mut ExceptionBuffer,
        pending: &PendingBatch,
        outcome: CollectorResult<ReportResult>,
    ) -> (res: CollectorResult<ReportResult>)
        ensures
            res == outcome,
            final(buffer)@ == if reached_all(outcome, pending.batch.records@.len()) {
                marked_in(old(buffer)@, texts(pending.signatures@))
            } else {
                old(buffer)@
            },
            old(buffer).wf() ==> final(buffer).wf(),
            outcome matches Ok(ReportResult::Partial { reported_count }) ==> reported_count
                < pending.batch.records@.len() ==> final(buffer)@ == old(buffer)@,
            outcome matches Ok(ReportResult::Failed { .. }) ==> final(buffer)@ == old(buffer)@,
            outcome is Err ==> final(buffer)@ == old(buffer)@,
            outcome matches Ok(ReportResult::Success) ==> final(buffer)@ == marked_in(
                old(buffer)@,
                texts(pending.signatures@),
            ),
            outcome matches Ok(ReportResult::Partial { reported_count }) ==> reported_count
                == pending.batch.records@.len() ==> final(buffer)@ == marked_in(
                old(buffer)@,
                texts(pending.signatures@),
            ),
    {
        if reaches_all(&outcome, pending.batch.records.len()) {
            buffer.mark_reported(&pending.signatures);
        }
        outcome
    }
}

/// A report that reached all the records leaves nothing that waits.
pub proof fn law_full_report_drains_the_buffer(m: Entries, pending_batch: PendingBatch, k: Seq<char>)
    requires
        is_batch_of(pending_batch, m),
    ensures
        !pending(marked_in(m, texts(pending_batch.signatures@)), k),
{
    assert(texts(pending_batch.signatures@).contains(k) <==> pending(m, k));
}

/// No record is marked without having been reported: a report that tells of
/// fewer records than it was given, or of none, or that failed, did not reach
/// them all, and one that tells of as many, or of success, did.
pub proof fn law_only_a_full_report_reaches_all(
    outcome: CollectorResult<ReportResult>,
    total: nat,
)
    ensures
        outcome matches Ok(ReportResult::Partial { reported_count }) ==> reported_count < total
            ==> !reached_all(outcome, total),
        outcome matches Ok(ReportResult::Partial { reported_count }) ==> reported_count == total
            ==> reached_all(outcome, total),
        outcome matches Ok(ReportResult::Failed { .. }) ==> !reached_all(outcome, total),
        outcome is Err ==> !reached_all(outcome, total),
        outcome matches Ok(ReportResult::Success) ==> reached_all(outcome, total),
{
}

/// The batch of a cycle leaves out nothing that waits and holds nothing that
/// does not: its records are the samples that wait, each beside its signature,
/// and none stands in it twice. It is for the component of the first of them, and
/// waits itself, with no repository chosen.
pub proof fn law_a_batch_holds_all_that_waits(m: Entries, pending_batch: PendingBatch)
    requires
        is_batch_of(pending_batch, m),
    ensures
        pending_batch.signatures@.len() == pending_batch.batch.records@.len(),
        forall|k: Seq<char>|
            m.dom().contains(k) && !(#[trigger] m[k]).sample.reported ==> exists|i: int|
                0 <= i < pending_batch.signatures@.len() && (
                #[trigger] pending_batch.signatures@[i])@ == k,
        forall|i: int|
            0 <= i < pending_batch.signatures@.len() ==> m.dom().contains(
                (#[trigger] pending_batch.signatures@[i])@,
            ) && !m[pending_batch.signatures@[i]@].sample.reported
                && pending_batch.batch.records@[i]@ == m[pending_batch.signatures@[i]@].sample,
        forall|i: int, j: int|
            0 <= i < j < pending_batch.signatures@.len() ==> (
            #[trigger] pending_batch.signatures@[i])@ != (#[trigger] pending_batch.signatures@[j])@,
        pending_batch.batch.records@.len() > 0,
        pending_batch.batch.component@ == pending_batch.batch.records@[0].component@,
        pending_batch.batch.status is Pending,
        pending_batch.batch.target matches ReportTarget::GitHub { repo, issue_url } && repo@.len()
            == 0 && issue_url@.len() == 0,
{
    reveal_strlit("");
    let keys = texts(pending_batch.signatures@);
    let records = record_views(pending_batch.batch.records@);
    assert(keys.len() == records.len());
    assert forall|k: Seq<char>|
        m.dom().contains(k) && !(#[trigger] m[k]).sample.reported implies exists|i: int|
        0 <= i < pending_batch.signatures@.len() && (#[trigger] pending_batch.signatures@[i])@
            == k by {
        assert(pending(m, k));
        assert(keys.contains(k));
        let i = choose|i: int| 0 <= i < keys.len() && keys[i] == k;
        assert(pending_batch.signatures@[i]@ == k);
    }
    assert forall|i: int| 0 <= i < pending_batch.signatures@.len() implies m.dom().contains(
        (#[trigger] pending_batch.signatures@[i])@,
    ) && !m[pending_batch.signatures@[i]@].sample.reported
        && pending_batch.batch.records@[i]@ == m[pending_batch.signatures@[i]@].sample by {
        assert(keys[i] == pending_batch.signatures@[i]@);
        assert(records[i] == pending_batch.batch.records@[i]@);
        assert(keys.contains(keys[i]));
        assert(pending(m, keys[i]));
    }
    assert forall|i: int, j: int| 0 <= i < j < pending_batch.signatures@.len() implies (
    #[trigger] pending_batch.signatures@[i])@ != (#[trigger] pending_batch.signatures@[j])@ by {
        assert(keys[i] == pending_batch.signatures@[i]@);
        assert(keys[j] == pending_batch.signatures@[j]@);
    }
}

} // verus!
