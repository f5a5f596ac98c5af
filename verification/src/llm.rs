//! Telling exceptions from issues that exist already, with a language model.
//!
//! The model is asked once for all the exceptions of a batch. An answer that is
//! not JSON is asked for once more. Where the model is not to be had, each
//! exception becomes a new issue with a text that is made here.

use crate::channel::REQUEST_TIMEOUT_SECS;
use crate::digits::{decimal, decimal_text};
use crate::error::{is_reporter_error, CollectorError, CollectorResult};
use crate::issue::{
    body_text, build_fallback_body, report_time, SIGNED_BY, SIGNED_BY_FALLBACK,
};
use crate::json::{
    array_text, json_array, json_member, json_object, json_string, member_text, object_text,
    string_text,
};
use crate::lines::blank;
use crate::record::{record_views, ExceptionRecord, RecordView};
use crate::text::{
    ends_with, joined, starts_with, strip_prefix, strip_suffix, texts, trim, trimmed,
    white_space,
};
use crate::text_laws::law_trimming_finds_what_stands_in_white_space;
use crate::title::{issue_title, title_text};
use vstd::prelude::*;
use vstd::string::*;

verus! {

/// What is to be done with an exception.
#[derive(Debug, Clone)]
pub struct ClassificationResult {
    /// The signature of the exception.
    pub signature: String,
    /// What is to be done.
    pub action: ClassificationAction,
}

/// What can be done with an exception.
#[derive(Debug, Clone)]
pub enum ClassificationAction {
    /// It repeats an open issue.
    Duplicate {
        /// The number of the issue, on which to comment.
        issue_number: u32,
    },
    /// It is new, and an issue is to be opened.
    NewIssue {
        /// The title of the issue.
        title: String,
        /// The text of the issue.
        body: String,
    },
}

/// What a [`ClassificationAction`] holds.
pub enum ActionView {
    /// See [`ClassificationAction::Duplicate`].
    Duplicate {
        /// The number of the issue.
        issue_number: u32,
    },
    /// See [`ClassificationAction::NewIssue`].
    NewIssue {
        /// The title of the issue.
        title: Seq<char>,
        /// The text of the issue.
        body: Seq<char>,
    },
}

/// What a [`ClassificationResult`] holds.
pub struct ClassificationView {
    /// See [`ClassificationResult::signature`].
    pub signature: Seq<char>,
    /// See [`ClassificationResult::action`].
    pub action: ActionView,
}

impl View for ClassificationResult {
    type V = ClassificationView;

    open spec fn view(&self) -> ClassificationView {
        ClassificationView {
            signature: self.signature@,
            action: match self.action {
                ClassificationAction::Duplicate { issue_number } => ActionView::Duplicate {
                    issue_number,
                },
                ClassificationAction::NewIssue { title, body } => ActionView::NewIssue {
                    title: title@,
                    body: body@,
                },
            },
        }
    }
}

/// What a sequence of classifications holds.
pub open spec fn classification_views(s: Seq<ClassificationResult>) -> Seq<ClassificationView> {
    Seq::new(s.len(), |i: int| s[i]@)
}

/// An open issue, with which exceptions are compared.
#[derive(Debug, Clone)]
pub struct ExistingIssueData {
    /// Its number.
    pub number: u32,
    /// Its title.
    pub title: String,
    /// Its text.
    pub body: String,
}

/// What the model is told to do.
pub const SYSTEM_PROMPT: &'static str = "You are a TokenFleet exception classification assistant. Your job is to determine whether each new exception matches an existing open issue (semantic duplicate) or is truly new. For duplicates: reference the existing issue number. For new issues: generate a concise title and a structured body with: exception summary, component, module path, location, and stack trace. Respond ONLY with a JSON array of objects, each with keys: \"signature\", \"action\" (\"duplicate\" or \"new_issue\"), \"issue_number\" (for duplicates), \"title\" and \"body\" (for new issues).";

/// What the model is told to do.
pub fn build_system_prompt() -> (res: String)
    ensures
        res@ == SYSTEM_PROMPT@,
{
    String::from_str(SYSTEM_PROMPT)
}

/// The members of the JSON object that the model sees of an exception.
pub open spec fn exception_members(r: RecordView) -> Seq<Seq<char>> {
    seq![
        json_member("signature"@, json_string(r.dedup_signature)),
        json_member("component"@, json_string(r.component)),
        json_member("message"@, json_string(r.message)),
        json_member("stacktrace"@, json_string(r.stacktrace)),
    ]
}

/// The members of the JSON object that the model sees of an issue.
pub open spec fn issue_members(issue: ExistingIssueData) -> Seq<Seq<char>> {
    seq![
        json_member("number"@, decimal(issue.number as nat)),
        json_member("title"@, json_string(issue.title@)),
        json_member("body"@, json_string(issue.body@)),
    ]
}

/// The JSON objects that the model sees of exceptions.
pub open spec fn json_exceptions(records: Seq<ExceptionRecord>) -> Seq<Seq<char>> {
    Seq::new(records.len(), |i: int| json_object(exception_members(records[i]@)))
}

/// The JSON objects that the model sees of issues.
pub open spec fn json_issues(issues: Seq<ExistingIssueData>) -> Seq<Seq<char>> {
    Seq::new(issues.len(), |i: int| json_object(issue_members(issues[i])))
}

/// What the model is asked: the open issues and the exceptions, as JSON.
pub open spec fn user_prompt_text(
    records: Seq<ExceptionRecord>,
    issues: Seq<ExistingIssueData>,
) -> Seq<char> {
    "## Existing Open Issues (JSON)\n"@ + json_array(json_issues(issues))
        + "\n\n## New Exceptions (JSON)\n"@ + json_array(json_exceptions(records))
}

/// Writes what the model sees of an exception.
fn exception_text(r: &ExceptionRecord) -> (res: String)
    ensures
        res@ == json_object(exception_members(r@)),
{
    let mut members: Vec<String> = Vec::new();
    members.push(member_text("signature", string_text(r.dedup_signature.as_str()).as_str()));
    members.push(member_text("component", string_text(r.component.as_str()).as_str()));
    members.push(member_text("message", string_text(r.message.as_str()).as_str()));
    members.push(member_text("stacktrace", string_text(r.stacktrace.as_str()).as_str()));
    assert(texts(members@) == exception_members(r@));
    object_text(&members)
}

/// Writes what the model sees of an issue.
fn issue_text(issue: &ExistingIssueData) -> (res: String)
    ensures
        res@ == json_object(issue_members(*issue)),
{
    let mut members: Vec<String> = Vec::new();
    members.push(member_text("number", decimal_text(issue.number as u64).as_str()));
    members.push(member_text("title", string_text(issue.title.as_str()).as_str()));
    members.push(member_text("body", string_text(issue.body.as_str()).as_str()));
    assert(texts(members@) == issue_members(*issue));
    object_text(&members)
}

/// What the model is asked.
pub fn build_user_prompt(
    records: &Vec<ExceptionRecord>,
    existing_issues: &Vec<ExistingIssueData>,
) -> (res: String)
    ensures
        res@ == user_prompt_text(records@, existing_issues@),
{
    let mut exceptions: Vec<String> = Vec::new();
    let mut i: usize = 0;
    while i < records.len()
        invariant
            i <= records@.len(),
            exceptions@.len() == i,
            forall|k: int|
                0 <= k < i ==> (#[trigger] exceptions@[k])@ == json_object(
                    exception_members(records@[k]@),
                ),
        decreases records@.len() - i,
    {
        exceptions.push(exception_text(&records[i]));
        i = i + 1;
    }
    assert(texts(exceptions@) == json_exceptions(records@));
    let mut issues: Vec<String> = Vec::new();
    let mut j: usize = 0;
    while j < existing_issues.len()
        invariant
            j <= existing_issues@.len(),
            issues@.len() == j,
            forall|k: int|
                0 <= k < j ==> (#[trigger] issues@[k])@ == json_object(
                    issue_members(existing_issues@[k]),
                ),
        decreases existing_issues@.len() - j,
    {
        issues.push(issue_text(&existing_issues[j]));
        j = j + 1;
    }
    assert(texts(issues@) == json_issues(existing_issues@));
    let mut out = String::from_str("## Existing Open Issues (JSON)\n");
    out.append(array_text(&issues).as_str());
    out.append("\n\n## New Exceptions (JSON)\n");
    out.append(array_text(&exceptions).as_str());
    out
}

/// How a block of JSON starts in Markdown.
pub const FENCE_START: &'static str = "```json";

/// How a block ends in Markdown.
pub const FENCE_END: &'static str = "```";

/// Whether `s` is one block of JSON in Markdown.
pub open spec fn is_fenced(s: Seq<char>) -> bool {
    starts_with(s, FENCE_START@) && ends_with(s.skip(FENCE_START@.len() as int), FENCE_END@)
}

/// What stands in a block of JSON in Markdown.
pub open spec fn unfenced(s: Seq<char>) -> Seq<char> {
    let rest = s.skip(FENCE_START@.len() as int);
    rest.take(rest.len() - FENCE_END@.len())
}

/// The JSON of an answer: what stands in its block, where it is one, or all of
/// it; without the white space around it.
pub open spec fn answer_json(answer: Seq<char>) -> Seq<char> {
    if is_fenced(trimmed(answer)) {
        trimmed(unfenced(trimmed(answer)))
    } else {
        trimmed(answer)
    }
}

/// The JSON of an answer.
pub fn response_json(text: &str) -> (res: &str)
    ensures
        res@ == answer_json(text@),
{
    let whole = trim(text);
    match strip_prefix(whole, FENCE_START) {
        Some(rest) => match strip_suffix(rest, FENCE_END) {
            Some(inner) => trim(inner),
            None => whole,
        },
        None => whole,
    }
}

/// The new issue that an exception becomes without the model.
pub open spec fn fallback_of(r: RecordView) -> ClassificationView {
    ClassificationView {
        signature: r.dedup_signature,
        action: ActionView::NewIssue {
            title: title_text(r),
            body: body_text(r, report_time(r), SIGNED_BY_FALLBACK@),
        },
    }
}

/// The new issues that exceptions become without the model.
pub open spec fn fallbacks_of(records: Seq<RecordView>) -> Seq<ClassificationView> {
    Seq::new(records.len(), |i: int| fallback_of(records[i]))
}

/// Makes a new issue of each exception, without the model.
pub fn fallback_classify(records: &Vec<ExceptionRecord>) -> (res: Vec<ClassificationResult>)
    ensures
        classification_views(res@) == fallbacks_of(record_views(records@)),
{
    let mut out: Vec<ClassificationResult> = Vec::new();
    let mut i: usize = 0;
    while i < records.len()
        invariant
            i <= records@.len(),
            out@.len() == i,
            forall|k: int| 0 <= k < i ==> (#[trigger] out@[k])@ == fallback_of(records@[k]@),
        decreases records@.len() - i,
    {
        let r = &records[i];
        out.push(
            ClassificationResult {
                signature: r.dedup_signature.clone(),
                action: ClassificationAction::NewIssue {
                    title: issue_title(r),
                    body: build_fallback_body(r),
                },
            },
        );
        i = i + 1;
    }
    assert(classification_views(out@) == fallbacks_of(record_views(records@)));
    out
}

/// Which request to the model was the last.
#[derive(Debug, Clone, Copy, PartialEq, Eq, Structural)]
pub enum Request {
    /// The first.
    First,
    /// The one more that an answer that was not JSON takes.
    Second,
}

/// What the model gave back.
#[derive(Debug)]
pub enum Answer {
    /// Nothing: the channel failed.
    Failed(CollectorError),
    /// Text that is not the JSON that was asked for.
    NotJson,
    /// What is to be done with the exceptions.
    Classified(Vec<ClassificationResult>),
}

/// What to do next.
#[derive(Debug)]
pub enum Next {
    /// To send the same prompts again.
    AskAgain,
    /// Nothing: this is the classification, or why there is none.
    Done(CollectorResult<Vec<ClassificationResult>>),
}

/// Why two answers that are not JSON are an error.
pub const NOT_JSON_TWICE: &'static str = "LLM response not valid JSON after retry";

/// Whether `res` is what an answer to a request leads to.
pub open spec fn leads_to(
    request: Request,
    records: Seq<RecordView>,
    answer: Answer,
    res: Next,
) -> bool {
    match answer {
        Answer::Classified(results) => res == Next::Done(Ok(results)),
        Answer::NotJson => if request == Request::First {
            res == Next::AskAgain
        } else {
            res matches Next::Done(Err(e)) && is_reporter_error(e, NOT_JSON_TWICE@)
        },
        Answer::Failed(error) => if records.len() > 0 {
            res matches Next::Done(Ok(results)) && classification_views(results@) == fallbacks_of(
                records,
            )
        } else {
            res == Next::Done(Err(error))
        },
    }
}

/// Classifies exceptions with a language model.
#[derive(Debug)]
pub struct LlmClassifier {
    /// How many seconds a request may take.
    pub timeout_secs: u64,
}

impl LlmClassifier {
    /// A classifier.
    pub fn new() -> (res: Self)
        ensures
            res.timeout_secs == REQUEST_TIMEOUT_SECS,
    {
        LlmClassifier { timeout_secs: REQUEST_TIMEOUT_SECS }
    }

    /// What an answer to a request leads to.
    pub fn classify_batch(
        &self,
        request: Request,
        records: &Vec<ExceptionRecord>,
        answer: Answer,
    ) -> (res: Next)
        ensures
            leads_to(request, record_views(records@), answer, res),
    {
        match answer {
            Answer::Classified(results) => Next::Done(Ok(results)),
            Answer::NotJson => if request == Request::First {
                Next::AskAgain
            } else {
                Next::Done(
                    Err(CollectorError::Reporter { reason: String::from_str(NOT_JSON_TWICE) }),
                )
            },
            Answer::Failed(error) => {
                let results = fallback_classify(records);
                assert(classification_views(results@).len() == records@.len());
                if results.len() == 0 {
                    Next::Done(Err(error))
                } else {
                    Next::Done(Ok(results))
                }
            },
        }
    }
}

/// The model is asked twice at most, and a second time only where its first
/// answer was not JSON.
pub proof fn law_two_requests_at_most(
    request: Request,
    records: Seq<RecordView>,
    answer: Answer,
    res: Next,
)
    requires
        leads_to(request, records, answer, res),
    ensures
        (res is AskAgain) == (request == Request::First && answer is NotJson),
{
}

/// Where the model is not to be had at either request, no exception is lost:
/// each becomes a new issue, under its signature, its title and its text, and in
/// its place.
pub proof fn law_no_exception_is_lost_without_the_model(
    request: Request,
    records: Seq<RecordView>,
    error: CollectorError,
    res: Next,
    i: int,
)
    requires
        leads_to(request, records, Answer::Failed(error), res),
        0 <= i < records.len(),
    ensures
        res matches Next::Done(Ok(results)) && results@.len() == records.len()
            && results@[i]@.signature == records[i].dedup_signature
            && results@[i]@.action is NewIssue && results@[i]@.action->title == title_text(records[i])
            && results@[i]@.action->body == body_text(
            records[i],
            report_time(records[i]),
            SIGNED_BY_FALLBACK@,
        ),
{
    let results = res->Done_0->Ok_0;
    let views = classification_views(results@);
    assert(views.len() == records.len());
    assert(views[i] == results@[i]@);
    assert(views[i] == fallback_of(records[i]));
}

/// What stands in a block of Markdown is read as if it stood alone.
pub proof fn law_fence_does_not_matter(json: Seq<char>)
    ensures
        answer_json(FENCE_START@ + json + FENCE_END@) == trimmed(json),
{
    reveal_strlit("```json");
    reveal_strlit("```");
    let whole = FENCE_START@ + json + FENCE_END@;
    assert(whole[0] == '`');
    assert(whole.last() == '`');
    assert(trimmed(whole) == whole);
    let rest = whole.skip(FENCE_START@.len() as int);
    assert(whole.take(FENCE_START@.len() as int) == FENCE_START@);
    assert(rest == json + FENCE_END@);
    assert(rest.skip(rest.len() - FENCE_END@.len()) == FENCE_END@);
    assert(unfenced(whole) == json);
}

/// Where the model's answer is a classification, that is the outcome, whole and
/// in order, whichever request it answers and whatever was asked.
pub proof fn law_a_classification_is_kept_whole(
    request: Request,
    records: Seq<RecordView>,
    results: Vec<ClassificationResult>,
    res: Next,
)
    requires
        leads_to(request, records, Answer::Classified(results), res),
    ensures
        res matches Next::Done(Ok(kept)) && kept@.len() == results@.len() && (forall|i: int|
            0 <= i < results@.len() ==> #[trigger] kept@[i] == results@[i]),
{
}

/// Without exceptions to make issues of, the failure of the channel is the
/// outcome, as it came.
pub proof fn law_a_failure_is_told_where_nothing_was_asked(
    request: Request,
    error: CollectorError,
    res: Next,
)
    requires
        leads_to(request, seq![], Answer::Failed(error), res),
    ensures
        res == Next::Done(Err(error)),
{
}

/// An answer that is not JSON never becomes a classification, and after the
/// second there is an error.
pub proof fn law_no_classification_is_made_up(
    request: Request,
    records: Seq<RecordView>,
    res: Next,
)
    requires
        leads_to(request, records, Answer::NotJson, res),
    ensures
        request == Request::First ==> res == Next::AskAgain,
        request == Request::Second ==> (res matches Next::Done(Err(e)) && e is Reporter
            && e->Reporter_reason@ == "LLM response not valid JSON after retry"@),
{
}

/// The prompt shows every exception, in order, with its signature, component,
/// message and stack trace, each whole and under its own key, behind the heading
/// of the new exceptions.
pub proof fn law_the_prompt_shows_every_exception(
    records: Seq<ExceptionRecord>,
    issues: Seq<ExistingIssueData>,
    i: int,
)
    requires
        0 <= i < records.len(),
    ensures
        exists|head: Seq<char>, items: Seq<Seq<char>>, members: Seq<Seq<char>>|
            user_prompt_text(records, issues) == #[trigger] (head
                + "\n\n## New Exceptions (JSON)\n"@) + ("["@ + #[trigger] joined(items, ","@) + "]"@)
                && items.len() == records.len() && items[i] == "{"@ + #[trigger] joined(
                members,
                ","@,
            ) + "}"@ && members.len() == 4 && members.contains(
                json_string("signature"@) + ":"@ + json_string(records[i]@.dedup_signature),
            ) && members.contains(
                json_string("component"@) + ":"@ + json_string(records[i]@.component),
            ) && members.contains(json_string("message"@) + ":"@ + json_string(records[i]@.message))
                && members.contains(
                json_string("stacktrace"@) + ":"@ + json_string(records[i]@.stacktrace),
            ),
{
    let head = "## Existing Open Issues (JSON)\n"@ + json_array(json_issues(issues));
    let items = json_exceptions(records);
    let r = records[i]@;
    let members = exception_members(r);
    assert(user_prompt_text(records, issues) == (head + "\n\n## New Exceptions (JSON)\n"@) + ("["@
        + joined(items, ","@) + "]"@));
    assert(items[i] == "{"@ + joined(members, ","@) + "}"@);
    assert(members[0] == json_string("signature"@) + ":"@ + json_string(r.dedup_signature));
    assert(members[1] == json_string("component"@) + ":"@ + json_string(r.component));
    assert(members[2] == json_string("message"@) + ":"@ + json_string(r.message));
    assert(members[3] == json_string("stacktrace"@) + ":"@ + json_string(r.stacktrace));
}

/// The prompt shows every open issue, in order, with its number, title and text,
/// each whole and under its own key, behind the heading of the open issues.
pub proof fn law_the_prompt_shows_every_issue(
    records: Seq<ExceptionRecord>,
    issues: Seq<ExistingIssueData>,
    i: int,
)
    requires
        0 <= i < issues.len(),
    ensures
        exists|items: Seq<Seq<char>>, members: Seq<Seq<char>>, tail: Seq<char>|
            user_prompt_text(records, issues) == "## Existing Open Issues (JSON)\n"@ + ("["@
                + #[trigger] joined(items, ","@) + "]"@) + #[trigger] (
            "\n\n## New Exceptions (JSON)\n"@ + tail) && items.len() == issues.len() && items[i]
                == "{"@ + #[trigger] joined(members, ","@) + "}"@ && members.len() == 3
                && members.contains(
                json_string("number"@) + ":"@ + decimal(issues[i].number as nat),
            ) && members.contains(json_string("title"@) + ":"@ + json_string(issues[i].title@))
                && members.contains(json_string("body"@) + ":"@ + json_string(issues[i].body@)),
{
    let tail = json_array(json_exceptions(records));
    let items = json_issues(issues);
    let members = issue_members(issues[i]);
    assert(user_prompt_text(records, issues) == "## Existing Open Issues (JSON)\n"@ + ("["@ + joined(
        items,
        ","@,
    ) + "]"@) + ("\n\n## New Exceptions (JSON)\n"@ + tail));
    assert(items[i] == "{"@ + joined(members, ","@) + "}"@);
    assert(members[0] == json_string("number"@) + ":"@ + decimal(issues[i].number as nat));
    assert(members[1] == json_string("title"@) + ":"@ + json_string(issues[i].title@));
    assert(members[2] == json_string("body"@) + ":"@ + json_string(issues[i].body@));
}

/// Without the model, an exception becomes the issue that it would have become
/// with no model at all, but for its last line, and under its own signature.
pub proof fn law_issues_without_the_model_tell_the_same(r: RecordView)
    ensures
        fallback_of(r).signature == r.dedup_signature,
        fallback_of(r).action matches ActionView::NewIssue { title, body } && title == title_text(r)
            && exists|head: Seq<char>|
            body == #[trigger] (head + SIGNED_BY_FALLBACK@) && body_text(
                r,
                report_time(r),
                SIGNED_BY@,
            ) == head + SIGNED_BY@,
{
    let head = body_text(r, report_time(r), seq![]);
    assert(body_text(r, report_time(r), SIGNED_BY_FALLBACK@) == head + SIGNED_BY_FALLBACK@);
    assert(body_text(r, report_time(r), SIGNED_BY@) == head + SIGNED_BY@);
}

/// An answer that does not start a block of Markdown, or does not end one, is
/// read as it stands, but for the white space around it.
pub proof fn law_an_answer_without_a_fence_is_read_whole(answer: Seq<char>)
    requires
        !starts_with(trimmed(answer), "```json"@) || !ends_with(trimmed(answer), "```"@),
    ensures
        answer_json(answer) == trimmed(answer),
{
    reveal_strlit("```json");
    reveal_strlit("```");
    let whole = trimmed(answer);
    let rest = whole.skip(FENCE_START@.len() as int);
    if is_fenced(whole) {
        assert(rest.skip(rest.len() - 3) == whole.skip(whole.len() - 3));
    }
}

/// Classifications of the same view tell the same signature and the same action.
pub proof fn law_views_of_classifications_tell_every_field(
    a: ClassificationResult,
    b: ClassificationResult,
)
    requires
        a@ == b@,
    ensures
        a.signature@ == b.signature@,
        a.action matches ClassificationAction::Duplicate { issue_number } ==> b.action is Duplicate
            && b.action->issue_number == issue_number,
        a.action matches ClassificationAction::NewIssue { title, body } ==> b.action is NewIssue
            && b.action->title@ == title@ && b.action->body@ == body@,
{
}

/// The white space around an answer does not matter.
pub proof fn law_white_space_around_an_answer_does_not_matter(
    before: Seq<char>,
    answer: Seq<char>,
    after: Seq<char>,
)
    requires
        blank(before),
        blank(after),
        answer.len() > 0 ==> !white_space(answer[0]) && !white_space(answer.last()),
    ensures
        answer_json(before + answer + after) == answer_json(answer),
{
    let none = Seq::<char>::empty();
    law_trimming_finds_what_stands_in_white_space(before, answer, after);
    law_trimming_finds_what_stands_in_white_space(none, answer, none);
    assert(none + answer + none == answer);
}

} // verus!
