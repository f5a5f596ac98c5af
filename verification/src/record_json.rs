//! Exceptions as JSON.

use crate::ids::{hyphenated, uuid_text};
use crate::json::{
    array_text, bool_text, json_array, json_bool, json_member, json_object, json_option,
    json_string, json_strings, member_text, object_text, option_text, string_text, strings_text,
};
use crate::record::{record_views, ExceptionKind, ExceptionRecord, RecordView};
use crate::text::{joined, texts};
use crate::time::{rfc3339_z_text, to_rfc3339_z};
use vstd::prelude::*;
use vstd::string::*;

verus! {

/// The key of the path of the Rust module.
pub const MODULE_KEY: &'static str = "module_path";

/// The name of a kind in JSON.
pub open spec fn kind_tag(kind: ExceptionKind) -> Seq<char> {
    match kind {
        ExceptionKind::Panic => "Panic"@,
        ExceptionKind::ErrorLog => "ErrorLog"@,
        ExceptionKind::ResultErr => "ResultErr"@,
    }
}

/// The name of a kind in JSON.
fn tag_of(kind: ExceptionKind) -> (res: &'static str)
    ensures
        res@ == kind_tag(kind),
{
    match kind {
        ExceptionKind::Panic => "Panic",
        ExceptionKind::ErrorLog => "ErrorLog",
        ExceptionKind::ResultErr => "ResultErr",
    }
}

/// The members of the JSON object that a record makes, with `time` for the text
/// of its time.
pub open spec fn record_members(r: RecordView, time: Seq<char>) -> Seq<Seq<char>> {
    seq![
        json_member("id"@, json_string(hyphenated(r.id))),
        json_member("component"@, json_string(r.component)),
        json_member("kind"@, json_string(kind_tag(r.kind))),
        json_member("message"@, json_string(r.message)),
        json_member("stacktrace"@, json_string(r.stacktrace)),
        json_member("span_chain"@, json_array(json_strings(r.span_chain))),
        json_member(MODULE_KEY@, json_option(r.module)),
        json_member("location"@, json_option(r.location)),
        json_member("timestamp"@, json_string(time)),
        json_member("dedup_signature"@, json_string(r.dedup_signature)),
        json_member("reported"@, json_bool(r.reported)),
        json_member("duplicate_of"@, json_option(r.duplicate_of)),
    ]
}

/// The JSON object that a record makes.
pub open spec fn json_record(r: RecordView) -> Seq<char> {
    json_object(record_members(r, rfc3339_z_text(r.timestamp)))
}

/// Writes a record as JSON.
pub fn record_json(r: &ExceptionRecord) -> (res: String)
    ensures
        res@ == json_record(r@),
{
    record_json_at(r, to_rfc3339_z(&r.timestamp).as_str())
}

/// Writes a record as JSON, with `time` for the text of its time.
pub fn record_json_at(r: &ExceptionRecord, time: &str) -> (res: String)
    ensures
        res@ == json_object(record_members(r@, time@)),
{
    let mut members: Vec<String> = Vec::new();
    members.push(member_text("id", string_text(uuid_text(r.id).as_str()).as_str()));
    members.push(member_text("component", string_text(r.component.as_str()).as_str()));
    members.push(member_text("kind", string_text(tag_of(r.kind)).as_str()));
    members.push(member_text("message", string_text(r.message.as_str()).as_str()));
    members.push(member_text("stacktrace", string_text(r.stacktrace.as_str()).as_str()));
    members.push(member_text("span_chain", strings_text(&r.span_chain).as_str()));
    members.push(member_text(MODULE_KEY, option_text(&r.module).as_str()));
    members.push(member_text("location", option_text(&r.location).as_str()));
    members.push(member_text("timestamp", string_text(time).as_str()));
    members.push(member_text("dedup_signature", string_text(r.dedup_signature.as_str()).as_str()));
    members.push(member_text("reported", bool_text(r.reported).as_str()));
    members.push(member_text("duplicate_of", option_text(&r.duplicate_of).as_str()));
    assert(texts(members@) == record_members(r@, time@));
    object_text(&members)
}

/// The JSON objects that records make.
pub open spec fn json_records(s: Seq<RecordView>) -> Seq<Seq<char>> {
    Seq::new(s.len(), |i: int| json_record(s[i]))
}

/// Writes records as a JSON array.
pub fn records_json(s: &Vec<ExceptionRecord>) -> (res: String)
    ensures
        res@ == json_array(json_records(record_views(s@))),
{
    let mut items: Vec<String> = Vec::new();
    let mut i: usize = 0;
    while i < s.len()
        invariant
            i <= s@.len(),
            items@.len() == i,
            forall|k: int| 0 <= k < i ==> (#[trigger] items@[k])@ == json_record(s@[k]@),
        decreases s@.len() - i,
    {
        items.push(record_json(&s[i]));
        i = i + 1;
    }
    assert(texts(items@) == json_records(record_views(s@)));
    array_text(&items)
}

/// Different kinds have different names in JSON, each that of its variant, so
/// that the kind of a record can be read back.
pub proof fn law_kinds_are_read_back(a: ExceptionKind, b: ExceptionKind)
    ensures
        kind_tag(a) == kind_tag(b) ==> a == b,
        kind_tag(a) == "Panic"@ <==> a == ExceptionKind::Panic,
        kind_tag(a) == "ErrorLog"@ <==> a == ExceptionKind::ErrorLog,
        kind_tag(a) == "ResultErr"@ <==> a == ExceptionKind::ResultErr,
{
    reveal_strlit("Panic");
    reveal_strlit("ErrorLog");
    reveal_strlit("ResultErr");
    assert("Panic"@[0] == 'P' && "ErrorLog"@[0] == 'E' && "ResultErr"@[0] == 'R');
}

/// The JSON object of a record holds each of its fields under its own key, whole,
/// and nothing else.
pub proof fn law_each_field_stands_under_its_key(r: RecordView)
    ensures
        exists|members: Seq<Seq<char>>|
            json_record(r) == "{"@ + #[trigger] joined(members, ","@) + "}"@ && members.len() == 12
                && members.contains(json_string("id"@) + ":"@ + json_string(hyphenated(r.id)))
                && members.contains(json_string("component"@) + ":"@ + json_string(r.component))
                && members.contains(json_string("kind"@) + ":"@ + json_string(kind_tag(r.kind)))
                && members.contains(json_string("message"@) + ":"@ + json_string(r.message))
                && members.contains(json_string("stacktrace"@) + ":"@ + json_string(r.stacktrace))
                && members.contains(
                    json_string("span_chain"@) + ":"@ + ("["@ + joined(json_strings(r.span_chain), ","@)
                        + "]"@),
                )
                && members.contains(json_string("module_path"@) + ":"@ + json_option(r.module))
                && members.contains(json_string("location"@) + ":"@ + json_option(r.location))
                && members.contains(
                    json_string("timestamp"@) + ":"@ + json_string(rfc3339_z_text(r.timestamp)),
                )
                && members.contains(
                    json_string("dedup_signature"@) + ":"@ + json_string(r.dedup_signature),
                )
                && members.contains(json_string("reported"@) + ":"@ + json_bool(r.reported))
                && members.contains(
                    json_string("duplicate_of"@) + ":"@ + json_option(r.duplicate_of),
                ),
{
    let members = record_members(r, rfc3339_z_text(r.timestamp));
    assert(json_record(r) == "{"@ + joined(members, ","@) + "}"@);
    assert(members[0] == json_string("id"@) + ":"@ + json_string(hyphenated(r.id)));
    assert(members[1] == json_string("component"@) + ":"@ + json_string(r.component));
    assert(members[2] == json_string("kind"@) + ":"@ + json_string(kind_tag(r.kind)));
    assert(members[3] == json_string("message"@) + ":"@ + json_string(r.message));
    assert(members[4] == json_string("stacktrace"@) + ":"@ + json_string(r.stacktrace));
    assert(members[5] == json_string("span_chain"@) + ":"@ + ("["@ + joined(
        json_strings(r.span_chain),
        ","@,
    ) + "]"@));
    assert(members[6] == json_string("module_path"@) + ":"@ + json_option(r.module));
    assert(members[7] == json_string("location"@) + ":"@ + json_option(r.location));
    assert(members[8] == json_string("timestamp"@) + ":"@ + json_string(
        rfc3339_z_text(r.timestamp),
    ));
    assert(members[9] == json_string("dedup_signature"@) + ":"@ + json_string(r.dedup_signature));
    assert(members[10] == json_string("reported"@) + ":"@ + json_bool(r.reported));
    assert(members[11] == json_string("duplicate_of"@) + ":"@ + json_option(r.duplicate_of));
}

/// Records are written one for one, in order.
pub proof fn law_records_are_written_one_for_one(s: Seq<RecordView>, i: int)
    ensures
        json_records(s).len() == s.len(),
        0 <= i < s.len() ==> json_records(s)[i] == json_record(s[i]),
{
}

} // verus!
