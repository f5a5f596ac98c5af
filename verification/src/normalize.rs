//! Replaces what varies in an error message by placeholders.
//!
//! File paths, UUIDs, IP addresses and numbers are replaced, the most specific
//! first: a number within an address is gone before numbers are looked for.

use vstd::prelude::*;
use vstd::string::*;

verus! {

/// A file path with a `src` directory and a line number.
pub const PATH_PATTERN: &'static str = r"\S+/src/\S+:\d+";

/// A UUID, in braces or not.
pub const UUID_PATTERN: &'static str =
    r"\{?[0-9a-fA-F]{8}-[0-9a-fA-F]{4}-[0-9a-fA-F]{4}-[0-9a-fA-F]{4}-[0-9a-fA-F]{12}\}?";

/// An IPv4 address.
pub const IPV4_PATTERN: &'static str = r"\b(?:\d{1,3}\.){3}\d{1,3}\b";

/// An IPv6 address. Of the forms that start alike the longest comes first, and
/// none starts or ends between two characters of a word, so that an address is
/// matched whole, and a path like `foo::bar` is none.
pub const IPV6_PATTERN: &'static str =
    r"::(?:[fF]{4}:)?(?:(?:25[0-5]|2[0-4]\d|1\d\d|[1-9]?\d)\.){3}(?:25[0-5]|2[0-4]\d|1\d\d|[1-9]?\d)\b|\b(?:[0-9a-fA-F]{1,4}:){1,4}:(?:(?:25[0-5]|2[0-4]\d|1\d\d|[1-9]?\d)\.){3}(?:25[0-5]|2[0-4]\d|1\d\d|[1-9]?\d)\b|\bfe80:(?::[0-9a-fA-F]{0,4}){0,4}%[0-9a-zA-Z]+\b|\b(?:[0-9a-fA-F]{1,4}:){7}[0-9a-fA-F]{1,4}\b|\b[0-9a-fA-F]{1,4}:(?::[0-9a-fA-F]{1,4}){1,6}\b|\b(?:[0-9a-fA-F]{1,4}:){1,2}(?::[0-9a-fA-F]{1,4}){1,5}\b|\b(?:[0-9a-fA-F]{1,4}:){1,3}(?::[0-9a-fA-F]{1,4}){1,4}\b|\b(?:[0-9a-fA-F]{1,4}:){1,4}(?::[0-9a-fA-F]{1,4}){1,3}\b|\b(?:[0-9a-fA-F]{1,4}:){1,5}(?::[0-9a-fA-F]{1,4}){1,2}\b|\b(?:[0-9a-fA-F]{1,4}:){1,6}:[0-9a-fA-F]{1,4}\b|:(?::[0-9a-fA-F]{1,4}){1,7}\b|\b(?:[0-9a-fA-F]{1,4}:){1,7}:";

/// A number, whole or with a fraction.
pub const NUMBER_PATTERN: &'static str = r"\b\d+\.?\d*\b";

/// What stands for a file path.
pub const PATH_PLACEHOLDER: &'static str = "*/src/*:*";

/// What stands for anything else.
pub const PLACEHOLDER: &'static str = "*";

/// The digit zero of each script. Its other nine digits follow it.
pub const ZEROS: &'static str = "\u{30}\u{660}\u{6f0}\u{7c0}\u{966}\u{9e6}\u{a66}\u{ae6}\u{b66}\u{be6}\u{c66}\u{ce6}\u{d66}\u{de6}\u{e50}\u{ed0}\u{f20}\u{1040}\u{1090}\u{17e0}\u{1810}\u{1946}\u{19d0}\u{1a80}\u{1a90}\u{1b50}\u{1bb0}\u{1c40}\u{1c50}\u{a620}\u{a8d0}\u{a900}\u{a9d0}\u{a9f0}\u{aa50}\u{abf0}\u{ff10}\u{104a0}\u{10d30}\u{10d40}\u{11066}\u{110f0}\u{11136}\u{111d0}\u{112f0}\u{11450}\u{114d0}\u{11650}\u{116c0}\u{116d0}\u{116da}\u{11730}\u{118e0}\u{11950}\u{11bf0}\u{11c50}\u{11d50}\u{11da0}\u{11f50}\u{16130}\u{16a60}\u{16ac0}\u{16b50}\u{16d70}\u{1ccf0}\u{1d7ce}\u{1d7d8}\u{1d7e2}\u{1d7ec}\u{1d7f6}\u{1e140}\u{1e2f0}\u{1e4f0}\u{1e5f1}\u{1e950}\u{1fbf0}";

/// Whether `c` is a decimal digit of some script.
pub open spec fn decimal_digit(c: char) -> bool {
    exists|i: int|
        0 <= i < ZEROS@.len() && (#[trigger] ZEROS@[i]) as int <= c as int <= ZEROS@[i] as int + 9
}

/// Whether `text` holds no decimal digit.
pub open spec fn without_digits(text: Seq<char>) -> bool {
    forall|i: int| 0 <= i < text.len() ==> !decimal_digit(#[trigger] text[i])
}

/// Whether `text` holds nothing that could vary: no digit, no colon and no hyphen.
pub open spec fn is_plain(text: Seq<char>) -> bool {
    without_digits(text) && !text.contains(':') && !text.contains('-')
}

/// Whether `expression` is one of the patterns that are looked for in a message,
/// and `replacement` what stands for its matches.
pub open spec fn is_step(expression: Seq<char>, replacement: Seq<char>) -> bool {
    ||| expression == PATH_PATTERN@ && replacement == PATH_PLACEHOLDER@
    ||| expression == UUID_PATTERN@ && replacement == PLACEHOLDER@
    ||| expression == IPV4_PATTERN@ && replacement == PLACEHOLDER@
    ||| expression == IPV6_PATTERN@ && replacement == PLACEHOLDER@
    ||| expression == NUMBER_PATTERN@ && replacement == PLACEHOLDER@
}

/// Whether `text` lacks a character that each match of the pattern holds: a
/// path and an IPv6 address hold a colon, a UUID a hyphen, an IPv4 address and a
/// number a digit.
pub open spec fn lacks_what_it_takes(expression: Seq<char>, text: Seq<char>) -> bool {
    ||| (expression == PATH_PATTERN@ || expression == IPV6_PATTERN@) && !text.contains(':')
    ||| expression == UUID_PATTERN@ && !text.contains('-')
    ||| (expression == IPV4_PATTERN@ || expression == NUMBER_PATTERN@) && without_digits(text)
}

/// Whether the pattern `earlier` is replaced before the pattern `later`.
pub open spec fn comes_before(earlier: Seq<char>, later: Seq<char>) -> bool {
    ||| earlier == PATH_PATTERN@ && (later == UUID_PATTERN@ || later == IPV4_PATTERN@ || later
        == IPV6_PATTERN@ || later == NUMBER_PATTERN@)
    ||| earlier == UUID_PATTERN@ && (later == IPV4_PATTERN@ || later == IPV6_PATTERN@ || later
        == NUMBER_PATTERN@)
    ||| earlier == IPV4_PATTERN@ && (later == IPV6_PATTERN@ || later == NUMBER_PATTERN@)
    ||| earlier == IPV6_PATTERN@ && later == NUMBER_PATTERN@
}

/// Two texts with a space between them.
pub open spec fn spaced(a: Seq<char>, b: Seq<char>) -> Seq<char> {
    a + seq![' '] + b
}

/// What `regex::Regex::replace_all` makes of `text`: the regular expression's
/// matches replaced by `replacement`.
pub uninterp spec fn replaced(
    expression: Seq<char>,
    text: Seq<char>,
    replacement: Seq<char>,
) -> Seq<char>;

/// Whether `res` is made of what stands on the two sides of each space of
/// `text`, as if each side stood alone.
pub open spec fn parts_at_spaces(
    expression: Seq<char>,
    text: Seq<char>,
    replacement: Seq<char>,
    res: Seq<char>,
) -> bool {
    forall|a: Seq<char>, b: Seq<char>|
        text == #[trigger] spaced(a, b) ==> res == spaced(
            replaced(expression, a, replacement),
            replaced(expression, b, replacement),
        )
}

/// Whether each pattern that is replaced before `expression`, and has no match
/// in `text`, has none in `res` either.
pub open spec fn makes_no_match(expression: Seq<char>, text: Seq<char>, res: Seq<char>) -> bool {
    forall|earlier: Seq<char>, mark: Seq<char>|
        comes_before(earlier, expression) && is_step(earlier, mark) && (#[trigger] replaced(
            earlier,
            text,
            mark,
        )) == text ==> replaced(earlier, res, mark) == res
}

/// Calls `regex::Regex::replace_all` with one of the patterns, each of which
/// `regex::Regex::new` accepts. The result is a function of the expression, the
/// text and the replacement. Beyond that it is claimed, of these patterns and
/// their placeholders only:
///
/// - A text that lacks what each match holds has no match, and a text without a
///   match comes back unchanged.
/// - A match holds no white space, and a space is to `\b` what the end of the
///   text is: so the two sides of a space are replaced as if each stood alone.
/// - A second call finds nothing. What is left between matches holds none, for
///   `replace_all` would have found it. A star starts and ends no match but
///   that of a path, and a path takes in the last `:` with digits of its word;
///   and where a star stands for a match, `\b` beside it holds as it did.
/// - A call makes no match of a pattern that is replaced before. Of a path, such
///   a match would have been one with the replaced text in place of the star.
///   Of any other, it would hold no star, and `\b` at its ends would have held
///   already: a number ends beside a digit or a letter only in a point, and
///   neither it nor an IPv6 address starts or ends within a word.
#[verifier::external_body]
fn replace_all(expression: &str, text: &str, replacement: &str) -> (res: String)
    requires
        is_step(expression@, replacement@),
    ensures
        res@ == replaced(expression@, text@, replacement@),
        lacks_what_it_takes(expression@, text@) ==> res@ == text@,
        parts_at_spaces(expression@, text@, replacement@, res@),
        replaced(expression@, res@, replacement@) == res@,
        makes_no_match(expression@, text@, res@),
{
    regex::Regex::new(expression).unwrap().replace_all(text, replacement).into_owned()
}

/// A message with its paths, then its UUIDs, then its IPv4 addresses, then its
/// IPv6 addresses, then its numbers replaced.
pub open spec fn normalized(msg: Seq<char>) -> Seq<char> {
    let paths = replaced(PATH_PATTERN@, msg, PATH_PLACEHOLDER@);
    let uuids = replaced(UUID_PATTERN@, paths, PLACEHOLDER@);
    let ipv4 = replaced(IPV4_PATTERN@, uuids, PLACEHOLDER@);
    let ipv6 = replaced(IPV6_PATTERN@, ipv4, PLACEHOLDER@);
    replaced(NUMBER_PATTERN@, ipv6, PLACEHOLDER@)
}

/// Replaces what varies in an error message by placeholders.
///
/// Nothing is left to replace in the result. No replacement reaches across a
/// space, and a message without digits, colons and hyphens stays as it is.
pub fn normalize_message(msg: &str) -> (res: String)
    ensures
        res@ == normalized(msg@),
        normalized(res@) == res@,
        forall|a: Seq<char>, b: Seq<char>|
            msg@ == #[trigger] spaced(a, b) ==> res@ == spaced(normalized(a), normalized(b)),
        is_plain(msg@) ==> res@ == msg@,
{
    let paths = replace_all(PATH_PATTERN, msg, PATH_PLACEHOLDER);
    let uuids = replace_all(UUID_PATTERN, paths.as_str(), PLACEHOLDER);
    let ipv4 = replace_all(IPV4_PATTERN, uuids.as_str(), PLACEHOLDER);
    let ipv6 = replace_all(IPV6_PATTERN, ipv4.as_str(), PLACEHOLDER);
    let res = replace_all(NUMBER_PATTERN, ipv6.as_str(), PLACEHOLDER);
    proof {
        assert(replaced(PATH_PATTERN@, res@, PATH_PLACEHOLDER@) == res@);
        assert(replaced(UUID_PATTERN@, res@, PLACEHOLDER@) == res@);
        assert(replaced(IPV4_PATTERN@, res@, PLACEHOLDER@) == res@);
        assert(replaced(IPV6_PATTERN@, res@, PLACEHOLDER@) == res@);
        assert forall|a: Seq<char>, b: Seq<char>| msg@ == #[trigger] spaced(a, b) implies res@
            == spaced(normalized(a), normalized(b)) by {
            let a1 = replaced(PATH_PATTERN@, a, PATH_PLACEHOLDER@);
            let b1 = replaced(PATH_PATTERN@, b, PATH_PLACEHOLDER@);
            assert(paths@ == spaced(a1, b1));
            let a2 = replaced(UUID_PATTERN@, a1, PLACEHOLDER@);
            let b2 = replaced(UUID_PATTERN@, b1, PLACEHOLDER@);
            assert(uuids@ == spaced(a2, b2));
            let a3 = replaced(IPV4_PATTERN@, a2, PLACEHOLDER@);
            let b3 = replaced(IPV4_PATTERN@, b2, PLACEHOLDER@);
            assert(ipv4@ == spaced(a3, b3));
            let a4 = replaced(IPV6_PATTERN@, a3, PLACEHOLDER@);
            let b4 = replaced(IPV6_PATTERN@, b3, PLACEHOLDER@);
            assert(ipv6@ == spaced(a4, b4));
        }
    }
    res
}

} // verus!
