//! The texts of issues and of the comments on them.

use crate::record::{ExceptionRecord, RecordView};
use crate::text::text_option;
use crate::time::{format_instant, formatted, REPORT_TIME_FORMAT};
use vstd::prelude::*;
use vstd::string::*;

verus! {

/// What an issue shows where something is not known.
pub const UNKNOWN: &'static str = "unknown";

/// The last line of an issue.
pub const SIGNED_BY: &'static str = "\n\n---\n> 由 TokenFleet Exception Collector 自动生成";

/// The last line of an issue that was written without the language model.
pub const SIGNED_BY_FALLBACK: &'static str = "\n\n---\n> 由 TokenFleet Exception Collector 自动生成（降级模式）";

/// The text of a record's time in a report.
pub open spec fn report_time(r: RecordView) -> Seq<char> {
    formatted(r.timestamp, REPORT_TIME_FORMAT@)
}

/// The text of a record's time in a report.
fn time_of(r: &ExceptionRecord) -> (res: String)
    ensures
        res@ == report_time(r@),
{
    format_instant(&r.timestamp, REPORT_TIME_FORMAT)
}

/// `o`, or `unknown`.
pub open spec fn known(o: Option<Seq<char>>) -> Seq<char> {
    match o {
        Some(s) => s,
        None => UNKNOWN@,
    }
}

/// What an issue says of a record: the message, the stack trace, the component,
/// the module, the place in the source and the text `time` of its time, and
/// `ending` behind them.
pub open spec fn body_text(r: RecordView, time: Seq<char>, ending: Seq<char>) -> Seq<char> {
    "## 异常摘要\n"@ + r.message + "\n\n## 堆栈\n```\n"@ + r.stacktrace
        + "\n```\n\n## 影响范围\n- 组件: "@ + r.component + "\n- 模块: "@ + known(r.module)
        + "\n- 位置: "@ + known(r.location) + "\n- 时间: "@ + time + ending
}

/// `o`, or `unknown`.
fn or_unknown(o: &Option<String>) -> (res: &str)
    ensures
        res@ == known(text_option(*o)),
{
    match o {
        Some(s) => s.as_str(),
        None => UNKNOWN,
    }
}

/// What an issue says of a record, with `time` for the text of its time.
pub fn build_body(r: &ExceptionRecord, time: &str, ending: &str) -> (res: String)
    ensures
        res@ == body_text(r@, time@, ending@),
{
    let mut out = String::from_str("## 异常摘要\n");
    out.append(r.message.as_str());
    out.append("\n\n## 堆栈\n```\n");
    out.append(r.stacktrace.as_str());
    out.append("\n```\n\n## 影响范围\n- 组件: ");
    out.append(r.component.as_str());
    out.append("\n- 模块: ");
    out.append(or_unknown(&r.module));
    out.append("\n- 位置: ");
    out.append(or_unknown(&r.location));
    out.append("\n- 时间: ");
    out.append(time);
    out.append(ending);
    out
}

/// What an issue says of a record.
pub fn build_issue_body(record: &ExceptionRecord) -> (res: String)
    ensures
        res@ == body_text(record@, report_time(record@), SIGNED_BY@),
{
    build_body(record, time_of(record).as_str(), SIGNED_BY)
}

/// What an issue says of a record where the language model was not to be had.
pub fn build_fallback_body(record: &ExceptionRecord) -> (res: String)
    ensures
        res@ == body_text(record@, report_time(record@), SIGNED_BY_FALLBACK@),
{
    build_body(record, time_of(record).as_str(), SIGNED_BY_FALLBACK)
}

/// What a comment says of an exception that happened again, with `time` for the
/// text of its time.
pub open spec fn comment_text(r: RecordView, time: Seq<char>) -> Seq<char> {
    "## 重复出现\n\n此异常仍在发生。\n\n- 组件: "@ + r.component + "\n- 最近发生: "@ + time + "\n"@
}

/// What a comment says of an exception that happened again, with `time` for the
/// text of its time.
pub fn build_comment_at(record: &ExceptionRecord, time: &str) -> (res: String)
    ensures
        res@ == comment_text(record@, time@),
{
    let mut out = String::from_str("## 重复出现\n\n此异常仍在发生。\n\n- 组件: ");
    out.append(record.component.as_str());
    out.append("\n- 最近发生: ");
    out.append(time);
    out.append("\n");
    out
}

/// What a comment says of an exception that happened again.
pub fn build_comment(record: &ExceptionRecord) -> (res: String)
    ensures
        res@ == comment_text(record@, report_time(record@)),
{
    build_comment_at(record, time_of(record).as_str())
}

/// Whether two texts are the same but for what stands between `label` and
/// `next`: `a` in the one, `b` in the other.
pub open spec fn differ_between(
    one: Seq<char>,
    other: Seq<char>,
    label: Seq<char>,
    a: Seq<char>,
    b: Seq<char>,
    next: Seq<char>,
) -> bool {
    exists|head: Seq<char>, tail: Seq<char>|
        one == #[trigger] (head + label + a + next + tail) && other == head + label + b + next + tail
}

/// What stands before `label` and behind `next` makes two such texts.
proof fn lemma_differ_between(
    head: Seq<char>,
    label: Seq<char>,
    a: Seq<char>,
    b: Seq<char>,
    next: Seq<char>,
    tail: Seq<char>,
)
    ensures
        differ_between(
            head + label + a + next + tail,
            head + label + b + next + tail,
            label,
            a,
            b,
            next,
        ),
{
}

/// The whole message stands behind its label, and nothing else rests on it.
pub proof fn law_the_message_stands_behind_its_label(
    r: RecordView,
    a: Seq<char>,
    b: Seq<char>,
    time: Seq<char>,
    ending: Seq<char>,
)
    ensures
        differ_between(
            body_text(RecordView { message: a, ..r }, time, ending),
            body_text(RecordView { message: b, ..r }, time, ending),
            "## 异常摘要\n"@,
            a,
            b,
            "\n\n## 堆栈\n```\n"@,
        ),
{
    let head = Seq::<char>::empty();
    let tail = r.stacktrace + "\n```\n\n## 影响范围\n- 组件: "@ + r.component + "\n- 模块: "@
        + known(r.module) + "\n- 位置: "@ + known(r.location) + "\n- 时间: "@ + time + ending;
    lemma_differ_between(head, "## 异常摘要\n"@, a, b, "\n\n## 堆栈\n```\n"@, tail);
    assert(body_text(RecordView { message: a, ..r }, time, ending) == head + "## 异常摘要\n"@
        + a + "\n\n## 堆栈\n```\n"@ + tail);
    assert(body_text(RecordView { message: b, ..r }, time, ending) == head + "## 异常摘要\n"@
        + b + "\n\n## 堆栈\n```\n"@ + tail);
}

/// The whole stack trace stands behind its label, and nothing else rests on it.
pub proof fn law_the_stack_trace_stands_behind_its_label(
    r: RecordView,
    a: Seq<char>,
    b: Seq<char>,
    time: Seq<char>,
    ending: Seq<char>,
)
    ensures
        differ_between(
            body_text(RecordView { stacktrace: a, ..r }, time, ending),
            body_text(RecordView { stacktrace: b, ..r }, time, ending),
            "\n\n## 堆栈\n```\n"@,
            a,
            b,
            "\n```\n\n## 影响范围\n- 组件: "@,
        ),
{
    let head = "## 异常摘要\n"@ + r.message;
    let tail = r.component + "\n- 模块: "@ + known(r.module) + "\n- 位置: "@ + known(r.location)
        + "\n- 时间: "@ + time + ending;
    lemma_differ_between(head, "\n\n## 堆栈\n```\n"@, a, b, "\n```\n\n## 影响范围\n- 组件: "@, tail);
    assert(body_text(RecordView { stacktrace: a, ..r }, time, ending) == head + "\n\n## 堆栈\n```\n"@
        + a + "\n```\n\n## 影响范围\n- 组件: "@ + tail);
    assert(body_text(RecordView { stacktrace: b, ..r }, time, ending) == head + "\n\n## 堆栈\n```\n"@
        + b + "\n```\n\n## 影响范围\n- 组件: "@ + tail);
}

/// The whole component stands behind its label, and nothing else rests on it.
pub proof fn law_the_component_stands_behind_its_label(
    r: RecordView,
    a: Seq<char>,
    b: Seq<char>,
    time: Seq<char>,
    ending: Seq<char>,
)
    ensures
        differ_between(
            body_text(RecordView { component: a, ..r }, time, ending),
            body_text(RecordView { component: b, ..r }, time, ending),
            "\n```\n\n## 影响范围\n- 组件: "@,
            a,
            b,
            "\n- 模块: "@,
        ),
{
    let head = "## 异常摘要\n"@ + r.message + "\n\n## 堆栈\n```\n"@ + r.stacktrace;
    let tail = known(r.module) + "\n- 位置: "@ + known(r.location) + "\n- 时间: "@ + time + ending;
    lemma_differ_between(head, "\n```\n\n## 影响范围\n- 组件: "@, a, b, "\n- 模块: "@, tail);
    assert(body_text(RecordView { component: a, ..r }, time, ending) == head + "\n```\n\n## 影响范围\n- 组件: "@
        + a + "\n- 模块: "@ + tail);
    assert(body_text(RecordView { component: b, ..r }, time, ending) == head + "\n```\n\n## 影响范围\n- 组件: "@
        + b + "\n- 模块: "@ + tail);
}

/// The whole module stands behind its label, and nothing else rests on it; one
/// that is not there is shown as unknown.
pub proof fn law_the_module_stands_behind_its_label(
    r: RecordView,
    a: Seq<char>,
    b: Seq<char>,
    time: Seq<char>,
    ending: Seq<char>,
)
    ensures
        differ_between(
            body_text(RecordView { module: Some(a), ..r }, time, ending),
            body_text(RecordView { module: Some(b), ..r }, time, ending),
            "\n- 模块: "@,
            a,
            b,
            "\n- 位置: "@,
        ),
        body_text(RecordView { module: None, ..r }, time, ending) == body_text(
            RecordView { module: Some("unknown"@), ..r },
            time,
            ending,
        ),
{
    let head = "## 异常摘要\n"@ + r.message + "\n\n## 堆栈\n```\n"@ + r.stacktrace
        + "\n```\n\n## 影响范围\n- 组件: "@ + r.component;
    let tail = known(r.location) + "\n- 时间: "@ + time + ending;
    lemma_differ_between(head, "\n- 模块: "@, a, b, "\n- 位置: "@, tail);
    assert(body_text(RecordView { module: Some(a), ..r }, time, ending) == head + "\n- 模块: "@
        + a + "\n- 位置: "@ + tail);
    assert(body_text(RecordView { module: Some(b), ..r }, time, ending) == head + "\n- 模块: "@
        + b + "\n- 位置: "@ + tail);
}

/// The whole place in the source stands behind its label, and nothing else rests
/// on it; one that is not there is shown as unknown.
pub proof fn law_the_location_stands_behind_its_label(
    r: RecordView,
    a: Seq<char>,
    b: Seq<char>,
    time: Seq<char>,
    ending: Seq<char>,
)
    ensures
        differ_between(
            body_text(RecordView { location: Some(a), ..r }, time, ending),
            body_text(RecordView { location: Some(b), ..r }, time, ending),
            "\n- 位置: "@,
            a,
            b,
            "\n- 时间: "@,
        ),
        body_text(RecordView { location: None, ..r }, time, ending) == body_text(
            RecordView { location: Some("unknown"@), ..r },
            time,
            ending,
        ),
{
    let head = "## 异常摘要\n"@ + r.message + "\n\n## 堆栈\n```\n"@ + r.stacktrace
        + "\n```\n\n## 影响范围\n- 组件: "@ + r.component + "\n- 模块: "@ + known(r.module);
    let tail = time + ending;
    lemma_differ_between(head, "\n- 位置: "@, a, b, "\n- 时间: "@, tail);
    assert(body_text(RecordView { location: Some(a), ..r }, time, ending) == head + "\n- 位置: "@
        + a + "\n- 时间: "@ + tail);
    assert(body_text(RecordView { location: Some(b), ..r }, time, ending) == head + "\n- 位置: "@
        + b + "\n- 时间: "@ + tail);
}

/// The time stands behind its label, and the ending behind the time; nothing
/// before them rests on them.
pub proof fn law_the_time_and_the_ending_come_last(
    r: RecordView,
    time: Seq<char>,
    ending: Seq<char>,
    other_time: Seq<char>,
    other_ending: Seq<char>,
)
    ensures
        exists|head: Seq<char>|
            body_text(r, time, ending) == #[trigger] (head + "\n- 时间: "@) + time + ending
                && body_text(r, other_time, other_ending) == head + "\n- 时间: "@ + other_time
                + other_ending,
{
    let head = "## 异常摘要\n"@ + r.message + "\n\n## 堆栈\n```\n"@ + r.stacktrace
        + "\n```\n\n## 影响范围\n- 组件: "@ + r.component + "\n- 模块: "@ + known(r.module)
        + "\n- 位置: "@ + known(r.location);
    assert(body_text(r, time, ending) == (head + "\n- 时间: "@) + time + ending);
    assert(body_text(r, other_time, other_ending) == (head + "\n- 时间: "@) + other_time
        + other_ending);
}

/// A report tells the instant of the record, in UTC, to the second.
pub proof fn law_reports_tell_when_it_happened(r: RecordView)
    ensures
        report_time(r) == formatted(r.timestamp, "%Y-%m-%d %H:%M:%S UTC"@),
{
}

/// A comment tells the component and the time, each whole and behind its label.
/// Nothing else rests on them.
pub proof fn law_comments_tell_the_component_and_the_time(
    r: RecordView,
    a: Seq<char>,
    b: Seq<char>,
    time: Seq<char>,
)
    ensures
        differ_between(
            comment_text(RecordView { component: a, ..r }, time),
            comment_text(RecordView { component: b, ..r }, time),
            "## 重复出现\n\n此异常仍在发生。\n\n- 组件: "@,
            a,
            b,
            "\n- 最近发生: "@,
        ),
        differ_between(
            comment_text(r, a),
            comment_text(r, b),
            "\n- 最近发生: "@,
            a,
            b,
            "\n"@,
        ),
{
    let none = Seq::<char>::empty();
    let start = "## 重复出现\n\n此异常仍在发生。\n\n- 组件: "@;
    lemma_differ_between(none, start, a, b, "\n- 最近发生: "@, time + "\n"@);
    assert(comment_text(RecordView { component: a, ..r }, time) == none + start + a
        + "\n- 最近发生: "@ + (time + "\n"@));
    assert(comment_text(RecordView { component: b, ..r }, time) == none + start + b
        + "\n- 最近发生: "@ + (time + "\n"@));
    lemma_differ_between(start + r.component, "\n- 最近发生: "@, a, b, "\n"@, none);
    assert(comment_text(r, a) == (start + r.component) + "\n- 最近发生: "@ + a + "\n"@ + none);
    assert(comment_text(r, b) == (start + r.component) + "\n- 最近发生: "@ + b + "\n"@ + none);
}

} // verus!
