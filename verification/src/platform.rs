//! Reporting to a collecting platform of one's own, by HTTP.

use crate::digits::{decimal, decimal_text};
use crate::error::{is_reporter_error, labelled, CollectorError, CollectorResult};
use crate::github::{failed, failed_at, RETRY_MINUTES};
use crate::ids::{hyphenated, uuid_text};
use crate::json::{json_array, json_member, json_object, json_string, member_text, object_text, string_text};
use crate::record::{record_views, ExceptionBatch, ReportResult};
use crate::record_json::{json_record, json_records, records_json};
use crate::text::{joined, texts};
use crate::time::{utc_now, Timestamp, MAX_SECS};
use vstd::prelude::*;
use vstd::string::*;

verus! {

/// The first status of an HTTP answer that tells of an error.
pub const FIRST_ERROR_STATUS: u16 = 400;

/// Reports exceptions with a `POST` to a platform.
#[derive(Debug)]
pub struct CustomPlatformReporter {
    /// The URL of the platform, without the path of a resource.
    pub endpoint: String,
}

/// How a `POST` ended.
#[derive(Debug)]
pub enum PostOutcome {
    /// The task that was to send it did not end; what the runtime said.
    Lost(String),
    /// The platform answered with a status.
    Answered {
        /// The status.
        status: u16,
    },
    /// There was no answer that counts as one; what the transport said.
    NotAnswered(String),
}

/// The members of the JSON object that a batch is posted as.
pub open spec fn payload_members(batch: ExceptionBatch) -> Seq<Seq<char>> {
    seq![
        json_member("component"@, json_string(batch.component@)),
        json_member("batch_id"@, json_string(hyphenated(batch.id))),
        json_member("records"@, json_array(json_records(record_views(batch.records@)))),
    ]
}

/// Whether a `POST` failed, though its task ended.
pub open spec fn post_failed(outcome: PostOutcome) -> bool {
    match outcome {
        PostOutcome::Lost(_) => false,
        PostOutcome::Answered { status } => status >= FIRST_ERROR_STATUS,
        PostOutcome::NotAnswered(_) => true,
    }
}

/// Whether `res` tells how a report went, of which the `POST` ended at `now` as
/// `outcome` says. A batch that the platform takes is reported whole.
pub open spec fn posted(
    res: CollectorResult<ReportResult>,
    outcome: PostOutcome,
    now: Timestamp,
) -> bool {
    match outcome {
        PostOutcome::Lost(message) => res matches Err(e) && is_reporter_error(
            e,
            "spawn_blocking join error: "@ + message@,
        ),
        PostOutcome::Answered { status } => res matches Ok(r) && if status < FIRST_ERROR_STATUS {
            r is Success
        } else {
            failed_at(r, "HTTP "@ + decimal(status as nat), now)
        },
        PostOutcome::NotAnswered(message) => res matches Ok(r) && failed_at(r, message@, now),
    }
}

/// Whether `res` tells how a report went by `now`: nothing exactly where the
/// `POST` failed and there is no later time at which to try again.
pub open spec fn post_finishes_at(
    res: Option<CollectorResult<ReportResult>>,
    outcome: PostOutcome,
    now: Timestamp,
) -> bool {
    match res {
        Some(r) => posted(r, outcome, now) && !(post_failed(outcome) && !now.can_advance(
            RETRY_MINUTES as int,
        )),
        None => post_failed(outcome) && !now.can_advance(RETRY_MINUTES as int),
    }
}

impl CustomPlatformReporter {
    /// A reporter to the given URL.
    pub fn new(endpoint: &str) -> (res: Self)
        ensures
            res.endpoint@ == endpoint@,
    {
        CustomPlatformReporter { endpoint: String::from_str(endpoint) }
    }

    /// Whether a platform is configured.
    pub fn check_available(&self) -> (res: bool)
        ensures
            res == (self.endpoint@.len() > 0),
    {
        !self.endpoint.as_str().is_empty()
    }

    /// The URL that batches are posted to.
    pub fn url(&self) -> (res: String)
        ensures
            res@ == self.endpoint@ + "/api/exceptions"@,
    {
        labelled(self.endpoint.as_str(), "/api/exceptions")
    }

    /// The JSON that a batch is posted as.
    pub fn payload(&self, batch: &ExceptionBatch) -> (res: String)
        ensures
            res@ == json_object(payload_members(*batch)),
    {
        let mut members: Vec<String> = Vec::new();
        members.push(member_text("component", string_text(batch.component.as_str()).as_str()));
        members.push(member_text("batch_id", string_text(uuid_text(batch.id).as_str()).as_str()));
        members.push(member_text("records", records_json(&batch.records).as_str()));
        assert(texts(members@) == payload_members(*batch));
        object_text(&members)
    }

    /// How a report went, of which the `POST` ended at `now`.
    pub fn conclude(&self, outcome: &PostOutcome, now: &Timestamp) -> (res: CollectorResult<
        ReportResult,
    >)
        requires
            post_failed(*outcome) ==> now.can_advance(RETRY_MINUTES as int),
        ensures
            posted(res, *outcome, *now),
    {
        match outcome {
            PostOutcome::Lost(message) => Err(
                CollectorError::Reporter {
                    reason: labelled("spawn_blocking join error: ", message.as_str()),
                },
            ),
            PostOutcome::Answered { status } => if *status < FIRST_ERROR_STATUS {
                Ok(ReportResult::Success)
            } else {
                Ok(failed(labelled("HTTP ", decimal_text(*status as u64).as_str()), now))
            },
            PostOutcome::NotAnswered(message) => Ok(failed(message.clone(), now)),
        }
    }

    /// How a report went, of which the `POST` ended at `now`. Nothing where it
    /// failed so late that there is no time at which to try again.
    pub fn finish_at(&self, outcome: &PostOutcome, now: &Timestamp) -> (res: Option<
        CollectorResult<ReportResult>,
    >)
        ensures
            post_finishes_at(res, *outcome, *now),
    {
        let failing = match outcome {
            PostOutcome::Lost(_) => false,
            PostOutcome::Answered { status } => *status >= FIRST_ERROR_STATUS,
            PostOutcome::NotAnswered(_) => true,
        };
        if failing && !now.has_room_for(RETRY_MINUTES) {
            return None;
        }
        Some(self.conclude(outcome, now))
    }

    /// How a report went, by the clock. Nothing where the clock stands so late
    /// that there is no time at which to try again.
    pub fn finish(&self, outcome: &PostOutcome) -> (res: Option<CollectorResult<ReportResult>>)
        ensures
            exists|now: Timestamp| #[trigger] post_finishes_at(res, *outcome, now),
    {
        let now = utc_now();
        let res = self.finish_at(outcome, &now);
        assert(post_finishes_at(res, *outcome, now));
        res
    }
}

impl Clone for CustomPlatformReporter {
    fn clone(&self) -> (res: Self)
        ensures
            res.endpoint@ == self.endpoint@,
    {
        CustomPlatformReporter { endpoint: self.endpoint.clone() }
    }
}

/// The JSON of a batch holds its component, its identifier and each of its
/// records, in order, each under its own key, and nothing else.
pub proof fn law_every_record_is_posted(batch: ExceptionBatch, i: int)
    ensures
        exists|members: Seq<Seq<char>>, items: Seq<Seq<char>>|
            json_object(payload_members(batch)) == "{"@ + #[trigger] joined(members, ","@) + "}"@
                && members.len() == 3 && members.contains(
                json_string("component"@) + ":"@ + json_string(batch.component@),
            ) && members.contains(
                json_string("batch_id"@) + ":"@ + json_string(hyphenated(batch.id)),
            ) && members.contains(
                json_string("records"@) + ":"@ + ("["@ + #[trigger] joined(items, ","@) + "]"@),
            ) && items.len() == batch.records@.len() && (0 <= i < batch.records@.len()
                ==> items[i] == json_record(batch.records@[i]@)),
{
    let members = payload_members(batch);
    let items = json_records(record_views(batch.records@));
    assert(members[0] == json_string("component"@) + ":"@ + json_string(batch.component@));
    assert(members[1] == json_string("batch_id"@) + ":"@ + json_string(hyphenated(batch.id)));
    assert(members[2] == json_string("records"@) + ":"@ + ("["@ + joined(items, ","@) + "]"@));
    assert(json_object(members) == "{"@ + joined(members, ","@) + "}"@);
}

/// A batch that the platform answers with a status below four hundred is
/// reported; one that it answers otherwise, or not at all, failed, and the reason
/// tells the status or what the transport said. In neither case is there an
/// error; that is for a `POST` that was lost.
pub proof fn law_the_status_decides(
    res: CollectorResult<ReportResult>,
    outcome: PostOutcome,
    now: Timestamp,
)
    requires
        posted(res, outcome, now),
    ensures
        (res is Err) == (outcome is Lost),
        outcome matches PostOutcome::Answered { status } ==> (res->Ok_0 is Success) == (status
            < 400),
        outcome matches PostOutcome::Answered { status } ==> (res->Ok_0 is Failed) == (status
            >= 400),
        outcome matches PostOutcome::Answered { status } ==> status >= 400
            ==> res->Ok_0->reason@ == "HTTP "@ + decimal(status as nat),
        outcome matches PostOutcome::NotAnswered(message) ==> res->Ok_0 is Failed
            && res->Ok_0->reason@ == message@,
        outcome matches PostOutcome::Lost(message) ==> res->Err_0 is Reporter
            && res->Err_0->Reporter_reason@ == "spawn_blocking join error: "@ + message@,
        res matches Ok(ReportResult::Failed { reason, retry_at }) ==> retry_at.secs() == now.secs()
            + 300 && (0 <= now.nanos() < 1_000_000_000 ==> retry_at.nanos() == now.nanos()),
{
}

/// There is nothing to tell only where a report failed less than five minutes
/// before the end of time; otherwise the result is that of the `POST`.
pub proof fn law_a_post_is_told_unless_time_ends(
    res: Option<CollectorResult<ReportResult>>,
    outcome: PostOutcome,
    now: Timestamp,
)
    requires
        post_finishes_at(res, outcome, now),
    ensures
        res is None ==> now.secs() + 300 > MAX_SECS,
        res is None ==> match outcome {
            PostOutcome::Lost(_) => false,
            PostOutcome::Answered { status } => status >= 400,
            PostOutcome::NotAnswered(_) => true,
        },
        res matches Some(r) ==> posted(r, outcome, now),
{
}

} // verus!
