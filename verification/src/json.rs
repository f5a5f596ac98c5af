//! Writing JSON, and reading values out of a JSON document.

use crate::digits::hex_byte;
use crate::text::{join, joined, same_text, text_option, texts};
use vstd::prelude::*;
use vstd::string::*;

verus! {

/// How a character stands in a JSON string: quotation marks, backslashes and
/// control characters are escaped, anything else stands for itself.
pub open spec fn escaped(c: char) -> Seq<char> {
    if c == '"' {
        seq!['\\', '"']
    } else if c == '\\' {
        seq!['\\', '\\']
    } else if c == '\u{8}' {
        seq!['\\', 'b']
    } else if c == '\t' {
        seq!['\\', 't']
    } else if c == '\n' {
        seq!['\\', 'n']
    } else if c == '\u{c}' {
        seq!['\\', 'f']
    } else if c == '\r' {
        seq!['\\', 'r']
    } else if c <= '\u{1f}' {
        seq!['\\', 'u', '0', '0'] + hex_byte(c as u8)
    } else {
        seq![c]
    }
}

/// The characters of `s`, each as it stands in a JSON string.
pub open spec fn escaped_all(s: Seq<char>) -> Seq<char>
    decreases s.len(),
{
    if s.len() == 0 {
        seq![]
    } else {
        escaped_all(s.drop_last()) + escaped(s.last())
    }
}

/// `s` as a JSON string.
pub open spec fn json_string(s: Seq<char>) -> Seq<char> {
    seq!['"'] + escaped_all(s) + seq!['"']
}

/// Calls `serde_json::to_string` on a text: the text in quotation marks, with
/// quotation marks, backslashes and control characters escaped.
#[verifier::external_body]
pub(crate) fn string_text(s: &str) -> (res: String)
    ensures
        res@ == json_string(s@),
{
    serde_json::to_string(s).unwrap()
}

/// `null` for nothing, or a JSON string.
pub open spec fn json_option(o: Option<Seq<char>>) -> Seq<char> {
    match o {
        Some(s) => json_string(s),
        None => "null"@,
    }
}

/// Writes `null` for nothing, or a JSON string.
pub(crate) fn option_text(o: &Option<String>) -> (res: String)
    ensures
        res@ == json_option(text_option(*o)),
{
    match o {
        Some(s) => string_text(s.as_str()),
        None => String::from_str("null"),
    }
}

/// `true` or `false`.
pub open spec fn json_bool(b: bool) -> Seq<char> {
    if b {
        "true"@
    } else {
        "false"@
    }
}

/// Writes `true` or `false`.
pub(crate) fn bool_text(b: bool) -> (res: String)
    ensures
        res@ == json_bool(b),
{
    if b {
        String::from_str("true")
    } else {
        String::from_str("false")
    }
}

/// A member of a JSON object, of which `value` is JSON.
pub open spec fn json_member(key: Seq<char>, value: Seq<char>) -> Seq<char> {
    json_string(key) + ":"@ + value
}

/// Writes a member of a JSON object.
pub(crate) fn member_text(key: &str, value: &str) -> (res: String)
    ensures
        res@ == json_member(key@, value@),
{
    let mut out = string_text(key);
    out.append(":");
    out.append(value);
    out
}

/// The JSON object of the given members.
pub open spec fn json_object(members: Seq<Seq<char>>) -> Seq<char> {
    "{"@ + joined(members, ","@) + "}"@
}

/// Writes a JSON object of the given members.
pub(crate) fn object_text(members: &Vec<String>) -> (res: String)
    ensures
        res@ == json_object(texts(members@)),
{
    let mut out = String::from_str("{");
    out.append(join(members, ",").as_str());
    out.append("}");
    out
}

/// The JSON array of the given items.
pub open spec fn json_array(items: Seq<Seq<char>>) -> Seq<char> {
    "["@ + joined(items, ","@) + "]"@
}

/// Writes a JSON array of the given items.
pub(crate) fn array_text(items: &Vec<String>) -> (res: String)
    ensures
        res@ == json_array(texts(items@)),
{
    let mut out = String::from_str("[");
    out.append(join(items, ",").as_str());
    out.append("]");
    out
}

/// Each of `s` as a JSON string.
pub open spec fn json_strings(s: Seq<Seq<char>>) -> Seq<Seq<char>> {
    Seq::new(s.len(), |i: int| json_string(s[i]))
}

/// Writes a JSON array of strings.
pub(crate) fn strings_text(s: &Vec<String>) -> (res: String)
    ensures
        res@ == json_array(json_strings(texts(s@))),
{
    let mut items: Vec<String> = Vec::new();
    let mut i: usize = 0;
    while i < s.len()
        invariant
            i <= s@.len(),
            items@.len() == i,
            forall|k: int| 0 <= k < i ==> (#[trigger] items@[k])@ == json_string(s@[k]@),
        decreases s@.len() - i,
    {
        items.push(string_text(s[i].as_str()));
        i = i + 1;
    }
    assert(texts(items@) == json_strings(texts(s@)));
    array_text(&items)
}

/// A JSON document.
#[derive(Debug)]
pub enum Json {
    /// `null`.
    Null,
    /// `true` or `false`.
    Bool(bool),
    /// A number, as it is written.
    Number(String),
    /// A string.
    Text(String),
    /// An array.
    Array(Vec<Json>),
    /// An object. Of members with the same key the first counts.
    Object(Vec<(String, Json)>),
}

/// The first of `members` with the given key.
pub open spec fn member_in(members: Seq<(String, Json)>, key: Seq<char>) -> Option<Json>
    decreases members.len(),
{
    if members.len() == 0 {
        None
    } else if members[0].0@ == key {
        Some(members[0].1)
    } else {
        member_in(members.skip(1), key)
    }
}

/// The member of an object with the given key.
pub open spec fn member_of(value: Json, key: Seq<char>) -> Option<Json> {
    match value {
        Json::Object(members) => member_in(members@, key),
        _ => None,
    }
}

/// The item of an array at the given position.
pub open spec fn item_of(value: Json, at: int) -> Option<Json> {
    match value {
        Json::Array(items) => if 0 <= at < items@.len() {
            Some(items@[at])
        } else {
            None
        },
        _ => None,
    }
}

/// The text of a string.
pub open spec fn text_of(value: Json) -> Option<Seq<char>> {
    match value {
        Json::Text(s) => Some(s@),
        _ => None,
    }
}

impl Json {
    /// The member of an object with the given key.
    pub fn get(&self, key: &str) -> (res: Option<&Json>)
        ensures
            match res {
                Some(found) => member_of(*self, key@) == Some(*found),
                None => member_of(*self, key@) is None,
            },
    {
        match self {
            Json::Object(members) => {
                let mut i: usize = 0;
                assert(members@.skip(0) == members@);
                while i < members.len()
                    invariant
                        i <= members@.len(),
                        *self == Json::Object(*members),
                        member_in(members@, key@) == member_in(members@.skip(i as int), key@),
                    decreases members@.len() - i,
                {
                    if same_text(members[i].0.as_str(), key) {
                        return Some(&members[i].1);
                    }
                    assert(members@.skip(i as int).skip(1) == members@.skip(i + 1));
                    i = i + 1;
                }
                None
            },
            _ => None,
        }
    }

    /// The item of an array at the given position.
    pub fn item(&self, at: usize) -> (res: Option<&Json>)
        ensures
            match res {
                Some(found) => item_of(*self, at as int) == Some(*found),
                None => item_of(*self, at as int) is None,
            },
    {
        match self {
            Json::Array(items) => if at < items.len() {
                Some(&items[at])
            } else {
                None
            },
            _ => None,
        }
    }

    /// The text of a string.
    pub fn as_str(&self) -> (res: Option<&str>)
        ensures
            match res {
                Some(found) => text_of(*self) == Some(found@),
                None => text_of(*self) is None,
            },
    {
        match self {
            Json::Text(s) => Some(s.as_str()),
            _ => None,
        }
    }
}

} // verus!
