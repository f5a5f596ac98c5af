//! The exceptions that are collected, and the batches in which they are reported.

use crate::ids::{is_random_uuid, new_v4};
use crate::text::{at_most, copy_option, copy_strings, text_option, texts};
use crate::time::{utc_now, Timestamp};
use vstd::prelude::*;
use vstd::string::*;

verus! {

/// Where an exception came from.
#[derive(Debug, Clone, Copy, PartialEq, Eq, Hash, Structural)]
pub enum ExceptionKind {
    /// A panic that the panic hook caught.
    Panic,
    /// A log entry of an error or a warning.
    ErrorLog,
    /// An explicit `Result::Err`.
    ResultErr,
}

/// The name under which a kind is shown.
pub open spec fn kind_text(kind: ExceptionKind) -> Seq<char> {
    match kind {
        ExceptionKind::Panic => "panic"@,
        ExceptionKind::ErrorLog => "error_log"@,
        ExceptionKind::ResultErr => "result_err"@,
    }
}

impl ExceptionKind {
    /// The name under which the kind is shown.
    pub fn to_string(&self) -> (res: String)
        ensures
            res@ == kind_text(*self),
    {
        String::from_str(self.name())
    }

    /// The name under which the kind is shown.
    pub(crate) fn name(&self) -> (res: &'static str)
        ensures
            res@ == kind_text(*self),
    {
        match self {
            ExceptionKind::Panic => "panic",
            ExceptionKind::ErrorLog => "error_log",
            ExceptionKind::ResultErr => "result_err",
        }
    }
}

/// How many characters of a message a record keeps.
pub const MESSAGE_LIMIT: usize = 500;

/// One exception, with its context.
#[derive(Debug)]
pub struct ExceptionRecord {
    /// A UUID, as a number.
    pub id: u128,
    /// The component that the exception comes from.
    pub component: String,
    /// Where the exception came from.
    pub kind: ExceptionKind,
    /// The message, cut to [`MESSAGE_LIMIT`] characters.
    pub message: String,
    /// The whole stack trace.
    pub stacktrace: String,
    /// The tracing spans, from the outermost in.
    pub span_chain: Vec<String>,
    /// The path of the Rust module.
    pub module: Option<String>,
    /// The place in the source, as `file:line`.
    pub location: Option<String>,
    /// When it happened.
    pub timestamp: Timestamp,
    /// The signature by which records of the same exception are found.
    pub dedup_signature: String,
    /// Whether it has been reported.
    pub reported: bool,
    /// The URL of the GitHub issue that it repeats.
    pub duplicate_of: Option<String>,
}

/// What an [`ExceptionRecord`] holds.
pub struct RecordView {
    /// See [`ExceptionRecord::id`].
    pub id: u128,
    /// See [`ExceptionRecord::component`].
    pub component: Seq<char>,
    /// See [`ExceptionRecord::kind`].
    pub kind: ExceptionKind,
    /// See [`ExceptionRecord::message`].
    pub message: Seq<char>,
    /// See [`ExceptionRecord::stacktrace`].
    pub stacktrace: Seq<char>,
    /// See [`ExceptionRecord::span_chain`].
    pub span_chain: Seq<Seq<char>>,
    /// See [`ExceptionRecord::module`].
    pub module: Option<Seq<char>>,
    /// See [`ExceptionRecord::location`].
    pub location: Option<Seq<char>>,
    /// See [`ExceptionRecord::timestamp`].
    pub timestamp: Timestamp,
    /// See [`ExceptionRecord::dedup_signature`].
    pub dedup_signature: Seq<char>,
    /// See [`ExceptionRecord::reported`].
    pub reported: bool,
    /// See [`ExceptionRecord::duplicate_of`].
    pub duplicate_of: Option<Seq<char>>,
}

impl View for ExceptionRecord {
    type V = RecordView;

    open spec fn view(&self) -> RecordView {
        RecordView {
            id: self.id,
            component: self.component@,
            kind: self.kind,
            message: self.message@,
            stacktrace: self.stacktrace@,
            span_chain: texts(self.span_chain@),
            module: text_option(self.module),
            location: text_option(self.location),
            timestamp: self.timestamp,
            dedup_signature: self.dedup_signature@,
            reported: self.reported,
            duplicate_of: text_option(self.duplicate_of),
        }
    }
}

impl RecordView {
    /// The record of an exception that has just happened: the message cut to
    /// its limit, and nothing known beyond it.
    pub open spec fn fresh(
        id: u128,
        timestamp: Timestamp,
        component: Seq<char>,
        kind: ExceptionKind,
        message: Seq<char>,
        stacktrace: Seq<char>,
    ) -> RecordView {
        RecordView {
            id,
            component,
            kind,
            message: at_most(message, MESSAGE_LIMIT as nat),
            stacktrace,
            span_chain: seq![],
            module: None,
            location: None,
            timestamp,
            dedup_signature: seq![],
            reported: false,
            duplicate_of: None,
        }
    }

    /// The record, marked as reported.
    pub open spec fn marked(self) -> RecordView {
        RecordView { reported: true, ..self }
    }

    /// The record, with its signature.
    pub open spec fn signed(self, signature: Seq<char>) -> RecordView {
        RecordView { dedup_signature: signature, ..self }
    }
}

/// Cuts `s` to its first `limit` characters.
pub fn truncate_chars(s: &str, limit: usize) -> (res: String)
    ensures
        res@ == at_most(s@, limit as nat),
{
    if s.unicode_len() <= limit {
        String::from_str(s)
    } else {
        assert(s@.take(limit as int) == s@.subrange(0, limit as int));
        String::from_str(s.substring_char(0, limit))
    }
}

impl ExceptionRecord {
    /// The record of an exception that has just happened, with a new random
    /// UUID and the time of the clock.
    ///
    /// A message of more than [`MESSAGE_LIMIT`] characters is cut.
    pub fn new(component: &str, kind: ExceptionKind, message: &str, stacktrace: &str) -> (res: Self)
        ensures
            is_random_uuid(res.id),
            res@ == RecordView::fresh(
                res.id,
                res.timestamp,
                component@,
                kind,
                message@,
                stacktrace@,
            ),
    {
        Self::of_instant(new_v4(), utc_now(), component, kind, message, stacktrace)
    }

    /// The record of an exception that happened at `timestamp`, under the
    /// given UUID.
    pub fn of_instant(
        id: u128,
        timestamp: Timestamp,
        component: &str,
        kind: ExceptionKind,
        message: &str,
        stacktrace: &str,
    ) -> (res: Self)
        ensures
            res@ == RecordView::fresh(id, timestamp, component@, kind, message@, stacktrace@),
    {
        let res = ExceptionRecord {
            id,
            component: String::from_str(component),
            kind,
            message: truncate_chars(message, MESSAGE_LIMIT),
            stacktrace: String::from_str(stacktrace),
            span_chain: Vec::new(),
            module: None,
            location: None,
            timestamp,
            dedup_signature: String::new(),
            reported: false,
            duplicate_of: None,
        };
        assert(texts(res.span_chain@) == Seq::<Seq<char>>::empty());
        res
    }
}

impl Clone for ExceptionRecord {
    fn clone(&self) -> (res: Self)
        ensures
            res@ == self@,
    {
        ExceptionRecord {
            id: self.id,
            component: self.component.clone(),
            kind: self.kind,
            message: self.message.clone(),
            stacktrace: self.stacktrace.clone(),
            span_chain: copy_strings(&self.span_chain),
            module: copy_option(&self.module),
            location: copy_option(&self.location),
            timestamp: self.timestamp,
            dedup_signature: self.dedup_signature.clone(),
            reported: self.reported,
            duplicate_of: copy_option(&self.duplicate_of),
        }
    }
}

/// The views of a sequence of records.
pub open spec fn record_views(s: Seq<ExceptionRecord>) -> Seq<RecordView> {
    Seq::new(s.len(), |i: int| s[i]@)
}

/// The exceptions of one signature.
///
/// The first record stands for them all; later ones only count.
#[derive(Debug)]
pub struct AggregatedException {
    /// The signature.
    pub signature: String,
    /// When the first one happened.
    pub first_seen: Timestamp,
    /// When the latest one happened.
    pub last_seen: Timestamp,
    /// How many there were.
    pub count: u32,
    /// The first one.
    pub sample: ExceptionRecord,
}

/// What an [`AggregatedException`] holds.
pub struct AggregatedView {
    /// See [`AggregatedException::signature`].
    pub signature: Seq<char>,
    /// See [`AggregatedException::first_seen`].
    pub first_seen: Timestamp,
    /// See [`AggregatedException::last_seen`].
    pub last_seen: Timestamp,
    /// See [`AggregatedException::count`].
    pub count: u32,
    /// See [`AggregatedException::sample`].
    pub sample: RecordView,
}

impl View for AggregatedException {
    type V = AggregatedView;

    open spec fn view(&self) -> AggregatedView {
        AggregatedView {
            signature: self.signature@,
            first_seen: self.first_seen,
            last_seen: self.last_seen,
            count: self.count,
            sample: self.sample@,
        }
    }
}

impl AggregatedView {
    /// What the first exception of a signature makes.
    pub open spec fn first(
        signature: Seq<char>,
        now: Timestamp,
        sample: RecordView,
    ) -> AggregatedView {
        AggregatedView { signature, first_seen: now, last_seen: now, count: 1, sample }
    }

    /// What one more exception of the signature makes of it.
    pub open spec fn again(self, now: Timestamp) -> AggregatedView {
        AggregatedView { last_seen: now, count: (self.count + 1) as u32, ..self }
    }

    /// The same, with the sample marked as reported.
    pub open spec fn marked(self) -> AggregatedView {
        AggregatedView { sample: self.sample.marked(), ..self }
    }
}

impl AggregatedException {
    /// What the first exception of a signature makes.
    pub fn first(signature: String, now: Timestamp, sample: ExceptionRecord) -> (res: Self)
        ensures
            res@ == AggregatedView::first(signature@, now, sample@),
    {
        AggregatedException { signature, first_seen: now, last_seen: now, count: 1, sample }
    }

    /// Counts one more exception of the signature.
    pub fn seen_again(&mut self, now: Timestamp)
        requires
            old(self).count < u32::MAX,
        ensures
            final(self)@ == old(self)@.again(now),
    {
        self.count = self.count + 1;
        self.last_seen = now;
    }

    /// The same, with the sample marked as reported.
    pub fn into_marked(self) -> (res: Self)
        ensures
            res@ == self@.marked(),
    {
        let mut res = self;
        res.sample.reported = true;
        res
    }
}

impl Clone for AggregatedException {
    fn clone(&self) -> (res: Self)
        ensures
            res@ == self@,
    {
        AggregatedException {
            signature: self.signature.clone(),
            first_seen: self.first_seen,
            last_seen: self.last_seen,
            count: self.count,
            sample: self.sample.clone(),
        }
    }
}

/// The views of a sequence of aggregated exceptions.
pub open spec fn aggregated_views(s: Seq<AggregatedException>) -> Seq<AggregatedView> {
    Seq::new(s.len(), |i: int| s[i]@)
}

/// Where a batch is reported to.
#[derive(Debug, PartialEq, Eq)]
pub enum ReportTarget {
    /// Issues of a GitHub repository.
    GitHub {
        /// The repository, as `owner/repo`.
        repo: String,
        /// The URL of an issue that exists already.
        issue_url: String,
    },
    /// A collecting platform of one's own.
    CustomPlatform {
        /// The URL of its interface.
        endpoint: String,
    },
}

/// Whether two targets are the same.
pub open spec fn same_target(a: ReportTarget, b: ReportTarget) -> bool {
    match (a, b) {
        (
            ReportTarget::GitHub { repo, issue_url },
            ReportTarget::GitHub { repo: r, issue_url: u },
        ) => repo@ == r@ && issue_url@ == u@,
        (
            ReportTarget::CustomPlatform { endpoint },
            ReportTarget::CustomPlatform { endpoint: e },
        ) => endpoint@ == e@,
        _ => false,
    }
}

impl Clone for ReportTarget {
    fn clone(&self) -> (res: Self)
        ensures
            same_target(res, *self),
    {
        match self {
            ReportTarget::GitHub { repo, issue_url } => ReportTarget::GitHub {
                repo: repo.clone(),
                issue_url: issue_url.clone(),
            },
            ReportTarget::CustomPlatform { endpoint } => ReportTarget::CustomPlatform {
                endpoint: endpoint.clone(),
            },
        }
    }
}

/// How far the reporting of a batch has come.
#[derive(Debug, PartialEq, Eq)]
pub enum BatchStatus {
    /// It waits to be reported.
    Pending,
    /// It has been reported.
    Reported,
    /// It could not be reported.
    Failed {
        /// Why.
        reason: String,
        /// When to try again.
        retry_at: Timestamp,
    },
}

/// Whether two states of a batch are the same.
pub open spec fn same_status(a: BatchStatus, b: BatchStatus) -> bool {
    match (a, b) {
        (BatchStatus::Pending, BatchStatus::Pending) => true,
        (BatchStatus::Reported, BatchStatus::Reported) => true,
        (
            BatchStatus::Failed { reason, retry_at },
            BatchStatus::Failed { reason: r, retry_at: t },
        ) => reason@ == r@ && retry_at == t,
        _ => false,
    }
}

impl Clone for BatchStatus {
    fn clone(&self) -> (res: Self)
        ensures
            same_status(res, *self),
    {
        match self {
            BatchStatus::Pending => BatchStatus::Pending,
            BatchStatus::Reported => BatchStatus::Reported,
            BatchStatus::Failed { reason, retry_at } => BatchStatus::Failed {
                reason: reason.clone(),
                retry_at: *retry_at,
            },
        }
    }
}

/// How a report went.
#[derive(Debug, Clone)]
pub enum ReportResult {
    /// Everything was reported.
    Success,
    /// Some of it was reported.
    Partial {
        /// How many records were reported.
        reported_count: usize,
    },
    /// Nothing was reported.
    Failed {
        /// Why.
        reason: String,
        /// When to try again.
        retry_at: Timestamp,
    },
}

/// Exceptions that are reported together.
#[derive(Debug)]
pub struct ExceptionBatch {
    /// A UUID, as a number.
    pub id: u128,
    /// The component that they come from.
    pub component: String,
    /// The exceptions.
    pub records: Vec<ExceptionRecord>,
    /// Where they are reported to.
    pub target: ReportTarget,
    /// When the batch was made.
    pub created_at: Timestamp,
    /// How far its reporting has come.
    pub status: BatchStatus,
}

impl ExceptionBatch {
    /// A batch that waits to be reported, with a new random UUID and the time
    /// of the clock.
    pub fn new(component: &str, records: Vec<ExceptionRecord>, target: ReportTarget) -> (res: Self)
        ensures
            is_random_uuid(res.id),
            res.component@ == component@,
            res.records == records,
            res.target == target,
            res.status == BatchStatus::Pending,
    {
        ExceptionBatch {
            id: new_v4(),
            component: String::from_str(component),
            records,
            target,
            created_at: utc_now(),
            status: BatchStatus::Pending,
        }
    }
}

/// A copy of `s`.
fn copy_records(s: &Vec<ExceptionRecord>) -> (res: Vec<ExceptionRecord>)
    ensures
        record_views(res@) == record_views(s@),
{
    let mut out: Vec<ExceptionRecord> = Vec::new();
    let mut i: usize = 0;
    while i < s.len()
        invariant
            i <= s@.len(),
            out@.len() == i,
            forall|k: int| 0 <= k < i ==> (#[trigger] out@[k])@ == s@[k]@,
        decreases s@.len() - i,
    {
        out.push(s[i].clone());
        i = i + 1;
    }
    assert(record_views(out@) == record_views(s@));
    out
}

impl Clone for ExceptionBatch {
    fn clone(&self) -> (res: Self)
        ensures
            res.id == self.id,
            res.component@ == self.component@,
            record_views(res.records@) == record_views(self.records@),
            same_target(res.target, self.target),
            res.created_at == self.created_at,
            same_status(res.status, self.status),
    {
        ExceptionBatch {
            id: self.id,
            component: self.component.clone(),
            records: copy_records(&self.records),
            target: self.target.clone(),
            created_at: self.created_at,
            status: self.status.clone(),
        }
    }
}

/// Different kinds have different names, each that of its variant in lower case.
pub proof fn law_kinds_have_names_of_their_own(a: ExceptionKind, b: ExceptionKind)
    ensures
        kind_text(a) == kind_text(b) ==> a == b,
        kind_text(a) == "panic"@ <==> a == ExceptionKind::Panic,
        kind_text(a) == "error_log"@ <==> a == ExceptionKind::ErrorLog,
        kind_text(a) == "result_err"@ <==> a == ExceptionKind::ResultErr,
{
    reveal_strlit("panic");
    reveal_strlit("error_log");
    reveal_strlit("result_err");
    assert("panic"@[0] == 'p' && "error_log"@[0] == 'e' && "result_err"@[0] == 'r');
}

/// A new record holds what it is made of, whole: only a message of more than five
/// hundred characters is cut, to its first five hundred. Nothing else is known
/// of it yet.
pub proof fn law_new_records_hold_what_they_are_made_of(
    id: u128,
    timestamp: Timestamp,
    component: Seq<char>,
    kind: ExceptionKind,
    message: Seq<char>,
    stacktrace: Seq<char>,
)
    ensures
        ({
            let r = RecordView::fresh(id, timestamp, component, kind, message, stacktrace);
            &&& r.id == id
            &&& r.timestamp == timestamp
            &&& r.component == component
            &&& r.kind == kind
            &&& r.stacktrace == stacktrace
            &&& message.len() <= 500 ==> r.message == message
            &&& message.len() > 500 ==> r.message.len() == 500 && r.message == message.take(500)
            &&& r.span_chain.len() == 0
            &&& r.module is None
            &&& r.location is None
            &&& r.dedup_signature.len() == 0
            &&& !r.reported
            &&& r.duplicate_of is None
        }),
{
}

/// A mark changes nothing of a record but the mark, and a signature nothing but
/// the signature.
pub proof fn law_marks_and_signatures_change_nothing_else(r: RecordView, signature: Seq<char>)
    ensures
        r.marked().reported,
        (RecordView { reported: r.reported, ..r.marked() }) == r,
        r.signed(signature).dedup_signature == signature,
        (RecordView { dedup_signature: r.dedup_signature, ..r.signed(signature) }) == r,
{
}

/// The first of a signature counts as one, seen at one time; one more adds one to
/// the count and moves the time of the latest. A mark leaves both as they are.
pub proof fn law_one_more_moves_the_count_and_the_latest_time(
    agg: AggregatedView,
    signature: Seq<char>,
    now: Timestamp,
    sample: RecordView,
)
    ensures
        AggregatedView::first(signature, now, sample).signature == signature,
        AggregatedView::first(signature, now, sample).first_seen == now,
        AggregatedView::first(signature, now, sample).last_seen == now,
        AggregatedView::first(signature, now, sample).count == 1,
        AggregatedView::first(signature, now, sample).sample == sample,
        agg.count < u32::MAX ==> agg.again(now).count == agg.count + 1,
        agg.again(now).last_seen == now,
        (AggregatedView { count: agg.count, last_seen: agg.last_seen, ..agg.again(now) }) == agg,
        agg.marked().sample.reported,
        (AggregatedView { sample: agg.sample, ..agg.marked() }) == agg,
        (RecordView { reported: agg.sample.reported, ..agg.marked().sample }) == agg.sample,
{
}

/// Records of the same view are the same in every field.
pub proof fn law_views_of_records_tell_every_field(a: ExceptionRecord, b: ExceptionRecord)
    requires
        a@ == b@,
    ensures
        a.id == b.id,
        a.component@ == b.component@,
        a.kind == b.kind,
        a.message@ == b.message@,
        a.stacktrace@ == b.stacktrace@,
        a.span_chain@.len() == b.span_chain@.len(),
        forall|i: int|
            0 <= i < a.span_chain@.len() ==> (#[trigger] a.span_chain@[i])@ == b.span_chain@[i]@,
        same_text_option(a.module, b.module),
        same_text_option(a.location, b.location),
        a.timestamp == b.timestamp,
        a.dedup_signature@ == b.dedup_signature@,
        a.reported == b.reported,
        same_text_option(a.duplicate_of, b.duplicate_of),
{
    let one = texts(a.span_chain@);
    let other = texts(b.span_chain@);
    assert(one.len() == other.len());
    assert forall|i: int| 0 <= i < a.span_chain@.len() implies (#[trigger] a.span_chain@[i])@
        == b.span_chain@[i]@ by {
        assert(one[i] == other[i]);
    }
}

/// Whether both are nothing, or both the same text.
pub open spec fn same_text_option(a: Option<String>, b: Option<String>) -> bool {
    match (a, b) {
        (Some(s), Some(t)) => s@ == t@,
        (None, None) => true,
        _ => false,
    }
}

/// Aggregated exceptions of the same view are the same in every field.
pub proof fn law_views_of_aggregates_tell_every_field(
    a: AggregatedException,
    b: AggregatedException,
)
    requires
        a@ == b@,
    ensures
        a.signature@ == b.signature@,
        a.first_seen == b.first_seen,
        a.last_seen == b.last_seen,
        a.count == b.count,
        a.sample@ == b.sample@,
{
}

/// Sequences of the same views are as long as each other, and the same at each
/// place.
pub proof fn law_views_keep_every_record(a: Seq<ExceptionRecord>, b: Seq<ExceptionRecord>)
    requires
        record_views(a) == record_views(b),
    ensures
        a.len() == b.len(),
        forall|i: int| 0 <= i < a.len() ==> (#[trigger] a[i])@ == b[i]@,
{
    let one = record_views(a);
    let other = record_views(b);
    assert(one.len() == a.len());
    assert(other.len() == b.len());
    assert forall|i: int| 0 <= i < a.len() implies (#[trigger] a[i])@ == b[i]@ by {
        assert(one[i] == a[i]@);
        assert(other[i] == b[i]@);
    }
}

/// The same targets name the same repository and issue, or the same platform.
pub proof fn law_same_targets_tell_the_same(a: ReportTarget, b: ReportTarget)
    requires
        same_target(a, b),
    ensures
        a matches ReportTarget::GitHub { repo, issue_url } ==> b is GitHub && b->repo@ == repo@
            && b->issue_url@ == issue_url@,
        a matches ReportTarget::CustomPlatform { endpoint } ==> b is CustomPlatform && b->endpoint@
            == endpoint@,
{
}

/// The same states of batches are alike, with the same reason and the same time.
pub proof fn law_same_states_tell_the_same(a: BatchStatus, b: BatchStatus)
    requires
        same_status(a, b),
    ensures
        (a is Pending) == (b is Pending),
        (a is Reported) == (b is Reported),
        a matches BatchStatus::Failed { reason, retry_at } ==> b is Failed && b->reason@ == reason@
            && b->retry_at == retry_at,
{
}

} // verus!
