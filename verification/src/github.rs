//! Reporting to GitHub with the command `gh`.
//!
//! A record that repeats an issue becomes a comment on it, any other a new
//! issue. The reporter tells which commands to run; what they printed comes
//! back to it, and it tells how the report went.

use crate::error::{is_reporter_error, labelled, CollectorError, CollectorResult};
use crate::issue::{body_text, build_comment, build_issue_body, comment_text, report_time, SIGNED_BY};
use crate::lines::blank;
use crate::record::{ExceptionBatch, ExceptionRecord, RecordView, ReportResult, ReportTarget};
use crate::text::{
    ends_with, join, joined, last_segment, segment_after_last, starts_with, texts, trim, trimmed,
    white_space,
};
use crate::text_laws::{
    law_the_last_segment_ends_the_text, law_trimming_finds_what_stands_in_white_space,
};
use crate::time::{formatted, utc_now, Timestamp, MAX_SECS, NANOS_PER_SEC};
use crate::title::{issue_title, title_text};
use vstd::prelude::*;
use vstd::string::*;
use vstd::utf8::*;

verus! {

/// How many minutes after a failed report to try again.
pub const RETRY_MINUTES: u32 = 5;

/// Reports exceptions by the command `gh`.
#[derive(Debug)]
pub struct GitHubReporter;

/// What a command is for.
#[derive(Debug)]
pub enum GhTask {
    /// It opens an issue.
    Create,
    /// It comments on an issue.
    Comment {
        /// The URL of the issue.
        url: String,
    },
}

/// A run of `gh`.
#[derive(Debug)]
pub struct GhCommand {
    /// What it is for.
    pub task: GhTask,
    /// Its arguments.
    pub args: Vec<String>,
}

/// What a [`GhCommand`] holds.
pub struct CommandView {
    /// The URL of the issue that it comments on; none for a new issue.
    pub comments_on: Option<Seq<char>>,
    /// See [`GhCommand::args`].
    pub args: Seq<Seq<char>>,
}

/// The URL of the issue that a task comments on.
pub open spec fn commented_url(task: GhTask) -> Option<Seq<char>> {
    match task {
        GhTask::Create => None,
        GhTask::Comment { url } => Some(url@),
    }
}

impl View for GhCommand {
    type V = CommandView;

    open spec fn view(&self) -> CommandView {
        CommandView { comments_on: commented_url(self.task), args: texts(self.args@) }
    }
}

/// What a sequence of commands holds.
pub open spec fn command_views(s: Seq<GhCommand>) -> Seq<CommandView> {
    Seq::new(s.len(), |i: int| s[i]@)
}

/// The arguments that open an issue.
pub open spec fn create_args(repo: Seq<char>, title: Seq<char>, body: Seq<char>) -> Seq<Seq<char>> {
    seq!["issue"@, "create"@, "--repo"@, repo, "--title"@, title, "--body"@, body]
}

/// The arguments that comment on an issue.
pub open spec fn comment_args(repo: Seq<char>, number: Seq<char>, body: Seq<char>) -> Seq<
    Seq<char>,
> {
    seq!["issue"@, "comment"@, repo + "#"@ + number, "--body"@, body]
}

/// The command that reports a record.
pub open spec fn command_of(repo: Seq<char>, r: RecordView) -> CommandView {
    match r.duplicate_of {
        Some(url) => CommandView {
            comments_on: Some(url),
            args: comment_args(repo, last_segment(url, '/'), comment_text(r, report_time(r))),
        },
        None => CommandView {
            comments_on: None,
            args: create_args(repo, title_text(r), body_text(r, report_time(r), SIGNED_BY@)),
        },
    }
}

/// The commands that report records, in order.
pub open spec fn commands_of(repo: Seq<char>, records: Seq<ExceptionRecord>) -> Seq<CommandView> {
    Seq::new(records.len(), |i: int| command_of(repo, records[i]@))
}

/// Why a batch for another target is refused.
pub const WRONG_TARGET: &'static str = "GitHubReporter requires ReportTarget::GitHub";

/// The arguments that open an issue.
pub fn create_issue(repo: &str, title: &str, body: &str) -> (res: Vec<String>)
    ensures
        texts(res@) == create_args(repo@, title@, body@),
{
    let mut args: Vec<String> = Vec::new();
    args.push(String::from_str("issue"));
    args.push(String::from_str("create"));
    args.push(String::from_str("--repo"));
    args.push(String::from_str(repo));
    args.push(String::from_str("--title"));
    args.push(String::from_str(title));
    args.push(String::from_str("--body"));
    args.push(String::from_str(body));
    assert(texts(args@) == create_args(repo@, title@, body@));
    args
}

/// The arguments that comment on an issue.
pub fn comment_on_issue(repo: &str, issue_number: &str, body: &str) -> (res: Vec<String>)
    ensures
        texts(res@) == comment_args(repo@, issue_number@, body@),
{
    let mut issue_ref = labelled(repo, "#");
    issue_ref.append(issue_number);
    let mut args: Vec<String> = Vec::new();
    args.push(String::from_str("issue"));
    args.push(String::from_str("comment"));
    args.push(issue_ref);
    args.push(String::from_str("--body"));
    args.push(String::from_str(body));
    assert(texts(args@) == comment_args(repo@, issue_number@, body@));
    args
}

/// The command that reports a record.
pub fn plan_record(repo: &str, r: &ExceptionRecord) -> (res: GhCommand)
    ensures
        res@ == command_of(repo@, r@),
{
    match &r.duplicate_of {
        Some(url) => {
            let body = build_comment(r);
            GhCommand {
                task: GhTask::Comment { url: url.clone() },
                args: comment_on_issue(repo, segment_after_last(url.as_str(), '/'), body.as_str()),
            }
        },
        None => {
            let title = issue_title(r);
            let body = build_issue_body(r);
            GhCommand {
                task: GhTask::Create,
                args: create_issue(repo, title.as_str(), body.as_str()),
            }
        },
    }
}

/// How a run of `gh` ended.
#[derive(Debug)]
pub enum GhOutcome {
    /// It could not be started; what the system said.
    NotRun(String),
    /// It ended.
    Exited {
        /// Whether it succeeded.
        success: bool,
        /// What it wrote to its standard output.
        stdout: Vec<u8>,
        /// What it wrote to its standard error.
        stderr: Vec<u8>,
    },
}

/// The text that `String::from_utf8_lossy` makes of bytes.
pub uninterp spec fn lossy_text(bytes: Seq<u8>) -> Seq<char>;

/// Calls `String::from_utf8_lossy`. The text is a function of the bytes. Bytes
/// that are UTF-8 are decoded; of others nothing is claimed.
#[verifier::external_body]
fn from_utf8_lossy(bytes: &Vec<u8>) -> (res: String)
    ensures
        res@ == lossy_text(bytes@),
        valid_utf8(bytes@) ==> res@ == decode_utf8(bytes@),
{
    String::from_utf8_lossy(bytes).into_owned()
}

/// Whether bytes that are UTF-8 are decoded.
pub open spec fn decodes(bytes: Seq<u8>) -> bool {
    valid_utf8(bytes) ==> lossy_text(bytes) == decode_utf8(bytes)
}

/// Whether what a run wrote, as far as it is looked at, is decoded where it is
/// UTF-8.
pub open spec fn output_decodes(outcome: GhOutcome) -> bool {
    match outcome {
        GhOutcome::NotRun(_) => true,
        GhOutcome::Exited { success, stdout, stderr } => if success {
            decodes(stdout@)
        } else {
            decodes(stderr@)
        },
    }
}

/// What a run that was to open an issue gave: the URL of the issue, or the
/// reason of the error.
pub open spec fn created(outcome: GhOutcome) -> Result<Seq<char>, Seq<char>> {
    match outcome {
        GhOutcome::NotRun(message) => Err("failed to run gh issue create: "@ + message@),
        GhOutcome::Exited { success, stdout, stderr } => if success {
            Ok(trimmed(lossy_text(stdout@)))
        } else {
            Err("gh issue create failed: "@ + lossy_text(stderr@))
        },
    }
}

/// What a run that was to comment on an issue gave: nothing, or the reason of
/// the error.
pub open spec fn commented(outcome: GhOutcome) -> Result<(), Seq<char>> {
    match outcome {
        GhOutcome::NotRun(message) => Err("failed to run gh issue comment: "@ + message@),
        GhOutcome::Exited { success, stdout, stderr } => if success {
            Ok(())
        } else {
            Err("gh issue comment failed: "@ + lossy_text(stderr@))
        },
    }
}

/// Reads the run that was to open an issue.
pub fn issue_created(outcome: &GhOutcome) -> (res: CollectorResult<String>)
    ensures
        match (res, created(*outcome)) {
            (Ok(url), Ok(text)) => url@ == text,
            (Err(e), Err(reason)) => is_reporter_error(e, reason),
            _ => false,
        },
        output_decodes(*outcome),
{
    match outcome {
        GhOutcome::NotRun(message) => Err(
            CollectorError::Reporter {
                reason: labelled("failed to run gh issue create: ", message.as_str()),
            },
        ),
        GhOutcome::Exited { success, stdout, stderr } => if *success {
            Ok(String::from_str(trim(from_utf8_lossy(stdout).as_str())))
        } else {
            Err(
                CollectorError::Reporter {
                    reason: labelled(
                        "gh issue create failed: ",
                        from_utf8_lossy(stderr).as_str(),
                    ),
                },
            )
        },
    }
}

/// Reads the run that was to comment on an issue.
pub fn comment_added(outcome: &GhOutcome) -> (res: CollectorResult<()>)
    ensures
        match (res, commented(*outcome)) {
            (Ok(_), Ok(_)) => true,
            (Err(e), Err(reason)) => is_reporter_error(e, reason),
            _ => false,
        },
        res is Err ==> output_decodes(*outcome),
{
    match outcome {
        GhOutcome::NotRun(message) => Err(
            CollectorError::Reporter {
                reason: labelled("failed to run gh issue comment: ", message.as_str()),
            },
        ),
        GhOutcome::Exited { success, stdout: _, stderr } => if *success {
            Ok(())
        } else {
            Err(
                CollectorError::Reporter {
                    reason: labelled(
                        "gh issue comment failed: ",
                        from_utf8_lossy(stderr).as_str(),
                    ),
                },
            )
        },
    }
}

/// What became of a record: it was reported, or the text of the error.
pub type Reported = Result<(), String>;

/// What a [`Reported`] holds.
pub open spec fn reported_view(r: Reported) -> Result<(), Seq<char>> {
    match r {
        Ok(_) => Ok(()),
        Err(message) => Err(message@),
    }
}

/// What a sequence of [`Reported`] holds.
pub open spec fn reported_views(s: Seq<Reported>) -> Seq<Result<(), Seq<char>>> {
    Seq::new(s.len(), |i: int| reported_view(s[i]))
}

/// What a run of a command makes of its record.
pub open spec fn settled(comments_on: Option<Seq<char>>, outcome: GhOutcome) -> Result<
    (),
    Seq<char>,
> {
    match comments_on {
        Some(url) => match commented(outcome) {
            Ok(_) => Ok(()),
            Err(reason) => Err("comment failed for "@ + url + ": "@ + ("reporter error: "@ + reason)),
        },
        None => match created(outcome) {
            Ok(_) => Ok(()),
            Err(reason) => Err("issue create failed: "@ + ("reporter error: "@ + reason)),
        },
    }
}

/// Reads the run of a command.
pub fn settle(command: &GhCommand, outcome: &GhOutcome) -> (res: Reported)
    ensures
        reported_view(res) == settled(command@.comments_on, *outcome),
        res is Err ==> output_decodes(*outcome),
{
    match &command.task {
        GhTask::Comment { url } => match comment_added(outcome) {
            Ok(_) => Ok(()),
            Err(e) => {
                let mut text = labelled("comment failed for ", url.as_str());
                text.append(": ");
                text.append(e.to_string().as_str());
                Err(text)
            },
        },
        GhTask::Create => match issue_created(outcome) {
            Ok(_) => Ok(()),
            Err(e) => Err(labelled("issue create failed: ", e.to_string().as_str())),
        },
    }
}

/// How many records were reported.
pub open spec fn successes(s: Seq<Result<(), Seq<char>>>) -> nat
    decreases s.len(),
{
    if s.len() == 0 {
        0
    } else {
        successes(s.drop_last()) + if s.last() is Ok {
            1nat
        } else {
            0nat
        }
    }
}

/// The texts of the errors, in order.
pub open spec fn failures(s: Seq<Result<(), Seq<char>>>) -> Seq<Seq<char>>
    decreases s.len(),
{
    if s.len() == 0 {
        seq![]
    } else {
        match s.last() {
            Ok(_) => failures(s.drop_last()),
            Err(message) => failures(s.drop_last()).push(message),
        }
    }
}

/// Whether nothing was reported though something was to be.
pub open spec fn all_failed(s: Seq<Result<(), Seq<char>>>) -> bool {
    successes(s) == 0 && s.len() > 0
}

/// Whether `later` is the time to try again after a report that failed at `now`.
pub open spec fn is_retry_time(later: Timestamp, now: Timestamp) -> bool {
    &&& later.secs() == now.secs() + 60 * RETRY_MINUTES
    &&& later.nanos() == now.nanos() % (NANOS_PER_SEC as int)
}

/// Whether `res` tells of a report that failed at `now` for the given reason.
pub open spec fn failed_at(res: ReportResult, reason: Seq<char>, now: Timestamp) -> bool {
    res matches ReportResult::Failed { reason: r, retry_at } && r@ == reason && is_retry_time(
        retry_at,
        now,
    )
}

/// Whether `res` tells what became of the records: all were reported, or some,
/// or, where none was, all their errors.
pub open spec fn concluded(
    res: ReportResult,
    results: Seq<Result<(), Seq<char>>>,
    now: Timestamp,
) -> bool {
    if successes(results) == results.len() {
        res is Success
    } else if successes(results) > 0 {
        res matches ReportResult::Partial { reported_count } && reported_count == successes(results)
    } else {
        failed_at(res, joined(failures(results), "; "@), now)
    }
}

/// Whether `res` tells what became of the records by `now`: nothing exactly
/// where all failed and there is no later time at which to try again.
pub open spec fn finishes_at(
    res: Option<ReportResult>,
    results: Seq<Result<(), Seq<char>>>,
    now: Timestamp,
) -> bool {
    match res {
        Some(r) => concluded(r, results, now) && !(all_failed(results) && !now.can_advance(
            RETRY_MINUTES as int,
        )),
        None => all_failed(results) && !now.can_advance(RETRY_MINUTES as int),
    }
}

/// The report that failed at `now`.
pub(crate) fn failed(reason: String, now: &Timestamp) -> (res: ReportResult)
    requires
        now.can_advance(RETRY_MINUTES as int),
    ensures
        failed_at(res, reason@, *now),
{
    ReportResult::Failed { reason, retry_at: now.plus_minutes(RETRY_MINUTES) }
}

/// Counts the records that were reported, and gathers the errors of the others.
fn tally(results: &Vec<Reported>) -> (res: (usize, Vec<String>))
    ensures
        res.0 == successes(reported_views(results@)),
        texts(res.1@) == failures(reported_views(results@)),
        res.0 <= results@.len(),
{
    let ghost all = reported_views(results@);
    let mut count: usize = 0;
    let mut errors: Vec<String> = Vec::new();
    let mut i: usize = 0;
    assert(texts(errors@) == Seq::<Seq<char>>::empty());
    assert(all.take(0) == Seq::<Result<(), Seq<char>>>::empty());
    while i < results.len()
        invariant
            i <= results@.len(),
            all == reported_views(results@),
            count <= i,
            count == successes(all.take(i as int)),
            texts(errors@) == failures(all.take(i as int)),
        decreases results@.len() - i,
    {
        proof {
            let head = all.take(i + 1);
            assert(head.drop_last() == all.take(i as int));
            assert(head.last() == reported_view(results@[i as int]));
        }
        match &results[i] {
            Ok(_) => {
                count = count + 1;
            },
            Err(message) => {
                let ghost before = texts(errors@);
                errors.push(message.clone());
                assert(texts(errors@) == before.push(message@));
            },
        }
        i = i + 1;
    }
    assert(all.take(results@.len() as int) == all);
    (count, errors)
}

/// How a report went at `now`, of which each record became what `results` say.
pub fn conclude(results: &Vec<Reported>, now: &Timestamp) -> (res: ReportResult)
    requires
        all_failed(reported_views(results@)) ==> now.can_advance(RETRY_MINUTES as int),
    ensures
        concluded(res, reported_views(results@), *now),
{
    let (count, errors) = tally(results);
    if count == results.len() {
        ReportResult::Success
    } else if count > 0 {
        ReportResult::Partial { reported_count: count }
    } else {
        failed(join(&errors, "; "), now)
    }
}

impl GitHubReporter {
    /// A reporter.
    pub fn new() -> (res: Self)
        ensures
            res == GitHubReporter,
    {
        GitHubReporter
    }

    /// The commands that report a batch, one for each record, in order.
    pub fn plan(&self, batch: &ExceptionBatch) -> (res: CollectorResult<Vec<GhCommand>>)
        ensures
            match batch.target {
                ReportTarget::GitHub { repo, issue_url } => res matches Ok(commands)
                    && command_views(commands@) == commands_of(repo@, batch.records@),
                ReportTarget::CustomPlatform { endpoint } => res matches Err(e)
                    && is_reporter_error(e, WRONG_TARGET@),
            },
    {
        match &batch.target {
            ReportTarget::GitHub { repo, issue_url: _ } => {
                let mut out: Vec<GhCommand> = Vec::new();
                let mut i: usize = 0;
                while i < batch.records.len()
                    invariant
                        i <= batch.records@.len(),
                        out@.len() == i,
                        forall|k: int|
                            0 <= k < i ==> (#[trigger] out@[k])@ == command_of(
                                repo@,
                                batch.records@[k]@,
                            ),
                    decreases batch.records@.len() - i,
                {
                    out.push(plan_record(repo.as_str(), &batch.records[i]));
                    i = i + 1;
                }
                assert(command_views(out@) == commands_of(repo@, batch.records@));
                Ok(out)
            },
            ReportTarget::CustomPlatform { endpoint: _ } => Err(
                CollectorError::Reporter { reason: String::from_str(WRONG_TARGET) },
            ),
        }
    }

    /// How a report went at `now`. Nothing where all failed so late that there
    /// is no time at which to try again.
    pub fn finish_at(&self, results: &Vec<Reported>, now: &Timestamp) -> (res: Option<ReportResult>)
        ensures
            finishes_at(res, reported_views(results@), *now),
    {
        let (count, _) = tally(results);
        if count == 0 && results.len() > 0 && !now.has_room_for(RETRY_MINUTES) {
            return None;
        }
        Some(conclude(results, now))
    }

    /// How a report went, by the clock. Nothing where the clock stands so late
    /// that there is no time at which to try again.
    pub fn finish(&self, results: &Vec<Reported>) -> (res: Option<ReportResult>)
        ensures
            exists|now: Timestamp| #[trigger]
                finishes_at(res, reported_views(results@), now),
    {
        let now = utc_now();
        let res = self.finish_at(results, &now);
        assert(finishes_at(res, reported_views(results@), now));
        res
    }
}

impl Default for GitHubReporter {
    fn default() -> (res: Self)
        ensures
            res == GitHubReporter,
    {
        GitHubReporter
    }
}

/// Each record was either reported or left an error.
pub proof fn law_each_record_is_reported_or_failed(results: Seq<Result<(), Seq<char>>>)
    ensures
        successes(results) + failures(results).len() == results.len(),
    decreases results.len(),
{
    if results.len() > 0 {
        law_each_record_is_reported_or_failed(results.drop_last());
    }
}

/// A report succeeds exactly where no record failed: so does one of no records.
pub proof fn law_success_means_that_all_were_reported(
    res: ReportResult,
    results: Seq<Result<(), Seq<char>>>,
    now: Timestamp,
)
    requires
        concluded(res, results, now),
    ensures
        (res is Success) == (forall|i: int| 0 <= i < results.len() ==> #[trigger] results[i] is Ok),
{
    lemma_no_failure(results);
    law_each_record_is_reported_or_failed(results);
}

/// A report fails exactly where there were records and every one failed.
pub proof fn law_failure_means_that_none_was_reported(
    res: ReportResult,
    results: Seq<Result<(), Seq<char>>>,
    now: Timestamp,
)
    requires
        concluded(res, results, now),
    ensures
        (res is Failed) == (results.len() > 0 && forall|i: int|
            0 <= i < results.len() ==> #[trigger] results[i] is Err),
{
    lemma_no_success(results);
    law_each_record_is_reported_or_failed(results);
}

proof fn lemma_no_failure(results: Seq<Result<(), Seq<char>>>)
    ensures
        (successes(results) == results.len()) == (forall|i: int|
            0 <= i < results.len() ==> #[trigger] results[i] is Ok),
    decreases results.len(),
{
    if results.len() > 0 {
        let before = results.drop_last();
        lemma_no_failure(before);
        law_each_record_is_reported_or_failed(before);
        assert(results.last() == results[results.len() - 1]);
        assert forall|i: int| 0 <= i < before.len() implies #[trigger] before[i] == results[i] by {}
        if successes(results) == results.len() {
            assert forall|i: int| 0 <= i < results.len() implies #[trigger] results[i] is Ok by {
                if i < before.len() {
                    assert(before[i] is Ok);
                }
            }
        } else if forall|i: int| 0 <= i < results.len() ==> #[trigger] results[i] is Ok {
            assert forall|i: int| 0 <= i < before.len() implies #[trigger] before[i] is Ok by {
                assert(results[i] is Ok);
            }
        }
    }
}

proof fn lemma_no_success(results: Seq<Result<(), Seq<char>>>)
    ensures
        (successes(results) == 0) == (forall|i: int|
            0 <= i < results.len() ==> #[trigger] results[i] is Err),
    decreases results.len(),
{
    if results.len() > 0 {
        let before = results.drop_last();
        lemma_no_success(before);
        assert(results.last() == results[results.len() - 1]);
        if successes(results) == 0 {
            assert forall|i: int| 0 <= i < results.len() implies #[trigger] results[i] is Err by {
                if i < before.len() {
                    assert(before[i] is Err);
                }
            }
        } else if forall|i: int| 0 <= i < results.len() ==> #[trigger] results[i] is Err {
            assert forall|i: int| 0 <= i < before.len() implies #[trigger] before[i] is Err by {
                assert(results[i] is Err);
            }
        }
    }
}

/// A record that repeats no issue opens one: in the repository, under the
/// record's title and with the record's text, each behind its own flag.
pub proof fn law_a_new_exception_opens_an_issue(repo: Seq<char>, r: RecordView)
    requires
        r.duplicate_of is None,
    ensures
        command_of(repo, r).comments_on is None,
        command_of(repo, r).args.len() == 8,
        command_of(repo, r).args[0] == "issue"@,
        command_of(repo, r).args[1] == "create"@,
        command_of(repo, r).args[2] == "--repo"@ && command_of(repo, r).args[3] == repo,
        command_of(repo, r).args[4] == "--title"@ && command_of(repo, r).args[5] == title_text(r),
        command_of(repo, r).args[6] == "--body"@ && command_of(repo, r).args[7] == body_text(
            r,
            formatted(r.timestamp, "%Y-%m-%d %H:%M:%S UTC"@),
            SIGNED_BY@,
        ),
{
}

/// A record that repeats an issue comments on it and opens none: the issue is
/// named by the repository and by what stands behind the last slash of its URL.
pub proof fn law_a_known_exception_comments_on_its_issue(
    repo: Seq<char>,
    r: RecordView,
    site: Seq<char>,
    number: Seq<char>,
)
    requires
        r.duplicate_of == Some(site + "/"@ + number),
        !number.contains('/'),
    ensures
        command_of(repo, r).comments_on == r.duplicate_of,
        command_of(repo, r).args.len() == 5,
        command_of(repo, r).args[0] == "issue"@,
        command_of(repo, r).args[1] == "comment"@,
        command_of(repo, r).args[2] == repo + "#"@ + number,
        command_of(repo, r).args[3] == "--body"@ && command_of(repo, r).args[4] == comment_text(
            r,
            formatted(r.timestamp, "%Y-%m-%d %H:%M:%S UTC"@),
        ),
{
    reveal_strlit("/");
    let url = site + "/"@ + number;
    let found = last_segment(url, '/');
    law_the_last_segment_ends_the_text(url, '/');
    let n = url.len() - found.len();
    if found.len() > number.len() {
        assert(found[site.len() - n] == url[site.len() as int]);
        assert(found.contains('/'));
    } else if found.len() < number.len() {
        assert(url[n - 1] == number[n - 1 - site.len() - 1]);
        assert(number.contains('/'));
    }
    assert(url.skip(site.len() as int + 1) == number);
}

/// Each record has a command, in its place.
pub proof fn law_each_record_has_its_command(repo: Seq<char>, records: Seq<ExceptionRecord>, i: int)
    ensures
        commands_of(repo, records).len() == records.len(),
        0 <= i < records.len() ==> commands_of(repo, records)[i] == command_of(repo, records[i]@),
{
}

/// A record counts as reported exactly where its command ran and succeeded, be it
/// for an issue or for a comment.
pub proof fn law_only_a_run_that_succeeds_reports(comments_on: Option<Seq<char>>, outcome: GhOutcome)
    ensures
        settled(comments_on, outcome) is Ok <==> (outcome matches GhOutcome::Exited { success, .. }
            && success),
{
}

/// The error of a record ends in what the system said of a run that did not
/// start, or in what a run that failed wrote to its standard error; and that of
/// a comment names the issue.
pub proof fn law_errors_tell_what_was_said(comments_on: Option<Seq<char>>, outcome: GhOutcome)
    ensures
        outcome matches GhOutcome::NotRun(message) ==> settled(comments_on, outcome) is Err
            && ends_with(settled(comments_on, outcome)->Err_0, message@),
        outcome matches GhOutcome::Exited { success, stdout, stderr } ==> !success ==> settled(
            comments_on,
            outcome,
        ) is Err && ends_with(settled(comments_on, outcome)->Err_0, lossy_text(stderr@)),
        comments_on matches Some(url) ==> settled(comments_on, outcome) is Err ==> starts_with(
            settled(comments_on, outcome)->Err_0,
            "comment failed for "@ + url + ": "@,
        ),
        comments_on is None ==> settled(comments_on, outcome) is Err ==> starts_with(
            settled(comments_on, outcome)->Err_0,
            "issue create failed: "@,
        ),
{
    if settled(comments_on, outcome) is Err {
        let text = settled(comments_on, outcome)->Err_0;
        let said = match outcome {
            GhOutcome::NotRun(message) => message@,
            GhOutcome::Exited { success, stdout, stderr } => lossy_text(stderr@),
        };
        assert(text.skip(text.len() - said.len()) == said);
        match comments_on {
            Some(url) => {
                let start = "comment failed for "@ + url + ": "@;
                assert(text.take(start.len() as int) == start);
            },
            None => {
                let start = "issue create failed: "@;
                assert(text.take(start.len() as int) == start);
            },
        }
    }
}

/// The URL of an issue that was opened is what its run wrote, without the white
/// space around it.
pub proof fn law_the_url_is_what_was_written(stdout: Vec<u8>, stderr: Vec<u8>, url: Seq<char>)
    requires
        url.len() > 0 ==> !white_space(url[0]) && !white_space(url.last()),
        exists|before: Seq<char>, after: Seq<char>|
            #![trigger before + url + after]
            lossy_text(stdout@) == before + url + after && blank(before) && blank(after),
    ensures
        created(GhOutcome::Exited { success: true, stdout, stderr }) == Ok::<Seq<char>, Seq<char>>(url),
{
    let (before, after) = choose|before: Seq<char>, after: Seq<char>|
        #![trigger before + url + after]
        lossy_text(stdout@) == before + url + after && blank(before) && blank(after);
    law_trimming_finds_what_stands_in_white_space(before, url, after);
}

/// What became of records that follow others is counted and told behind what
/// became of those; one that was reported adds one to the count, one that failed
/// adds its error.
pub proof fn law_what_became_of_records_adds_up(
    a: Seq<Result<(), Seq<char>>>,
    b: Seq<Result<(), Seq<char>>>,
    message: Seq<char>,
)
    ensures
        successes(a + b) == successes(a) + successes(b),
        failures(a + b) == failures(a) + failures(b),
        successes(seq![Ok(())]) == 1 && successes(seq![Err(message)]) == 0,
        failures(seq![Ok(())]) == Seq::<Seq<char>>::empty(),
        failures(seq![Err(message)]) == seq![message],
    decreases b.len(),
{
    let none = Seq::<Result<(), Seq<char>>>::empty();
    let good = seq![Ok::<(), Seq<char>>(())];
    let bad = seq![Err::<(), Seq<char>>(message)];
    assert(good.drop_last() == none && bad.drop_last() == none);
    assert(successes(none) == 0 && failures(none) == Seq::<Seq<char>>::empty());
    assert(failures(bad) == seq![message]);
    if b.len() == 0 {
        assert(a + b == a);
        assert(failures(a) + failures(b) == failures(a));
    } else {
        law_what_became_of_records_adds_up(a, b.drop_last(), message);
        assert((a + b).drop_last() == a + b.drop_last());
        assert((a + b).last() == b.last());
        assert(failures(a + b) == failures(a) + failures(b));
    }
}

/// A partial report tells how many records were reported: some, and not all. A
/// report that failed tells every error, in order, and to try again five minutes
/// later.
pub proof fn law_reports_tell_what_became_of_the_records(
    res: ReportResult,
    results: Seq<Result<(), Seq<char>>>,
    now: Timestamp,
)
    requires
        concluded(res, results, now),
    ensures
        res matches ReportResult::Partial { reported_count } ==> 0 < reported_count < results.len()
            && reported_count + failures(results).len() == results.len(),
        res matches ReportResult::Failed { reason, retry_at } ==> reason@ == joined(
            failures(results),
            "; "@,
        ) && failures(results).len() == results.len() && retry_at.secs() == now.secs() + 300 && (
        0 <= now.nanos() < 1_000_000_000 ==> retry_at.nanos() == now.nanos()),
{
    law_each_record_is_reported_or_failed(results);
}

/// There is nothing to tell only where all records failed less than five minutes
/// before the end of time; otherwise the result is that of the records.
pub proof fn law_a_report_is_told_unless_time_ends(
    res: Option<ReportResult>,
    results: Seq<Result<(), Seq<char>>>,
    now: Timestamp,
)
    requires
        finishes_at(res, results, now),
    ensures
        res is None ==> now.secs() + 300 > MAX_SECS && results.len() > 0 && (forall|i: int|
            0 <= i < results.len() ==> #[trigger] results[i] is Err),
        res matches Some(r) ==> concluded(r, results, now),
{
    lemma_no_success(results);
}

/// Commands of the same view are for the same, with the same arguments.
pub proof fn law_views_of_commands_tell_everything(a: GhCommand, b: GhCommand)
    requires
        a@ == b@,
    ensures
        (a.task is Create) == (b.task is Create),
        a.task matches GhTask::Comment { url } ==> b.task->url@ == url@,
        a.args@.len() == b.args@.len(),
        forall|i: int| 0 <= i < a.args@.len() ==> (#[trigger] a.args@[i])@ == b.args@[i]@,
{
    let one = texts(a.args@);
    let other = texts(b.args@);
    assert(one.len() == a.args@.len());
    assert(other.len() == b.args@.len());
    assert forall|i: int| 0 <= i < a.args@.len() implies (#[trigger] a.args@[i])@ == b.args@[i]@ by {
        assert(one[i] == other[i]);
    }
}

/// What became of records is viewed one for one: a success as a success, an error
/// with its text.
pub proof fn law_outcomes_are_viewed_one_for_one(s: Seq<Reported>, i: int)
    ensures
        reported_views(s).len() == s.len(),
        0 <= i < s.len() ==> (reported_views(s)[i] is Ok) == (s[i] is Ok),
        0 <= i < s.len() && s[i] is Err ==> reported_views(s)[i]->Err_0 == s[i]->Err_0@,
{
}

/// Commands are viewed one for one.
pub proof fn law_commands_are_viewed_one_for_one(s: Seq<GhCommand>, i: int)
    ensures
        command_views(s).len() == s.len(),
        0 <= i < s.len() ==> command_views(s)[i] == s[i]@,
{
}

} // verus!
