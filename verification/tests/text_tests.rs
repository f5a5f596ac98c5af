use exception_collector::digits::{decimal_text, hex_text};
use exception_collector::text::{
    chars_of, is_white_space, join, same_text, segment_after_last, strip_prefix, strip_suffix, trim,
};
use exception_collector::time::{MAX_SECS, MIN_SECS};
use exception_collector::{build_user_prompt, Duration, ExceptionKind, ExceptionRecord, Timestamp};

#[test]
fn white_space_is_that_of_unicode() {
    for c in '\0'..=char::MAX {
        assert_eq!(is_white_space(c), c.is_whitespace(), "{c:?}");
    }
}

#[test]
fn trimming_takes_white_space_from_both_ends() {
    for text in ["", " ", " a ", "\u{3000}a b\n", "a", "\t\n"] {
        assert_eq!(trim(text), text.trim());
    }
}

#[test]
fn prefixes_and_suffixes_are_stripped_once() {
    assert_eq!(strip_prefix("aab", "a"), Some("ab"));
    assert_eq!(strip_prefix("b", "a"), None);
    assert_eq!(strip_prefix("a", "ab"), None);
    assert_eq!(strip_suffix("baa", "a"), Some("ba"));
    assert_eq!(strip_suffix("b", "a"), None);
    assert_eq!(strip_suffix("错b", "b"), Some("错"));
    assert!(same_text("x", "x"));
    assert!(!same_text("x", "xy"));
    assert_eq!(chars_of("a错"), vec!['a', '错']);
}

#[test]
fn the_last_segment_stands_behind_the_last_separator() {
    assert_eq!(segment_after_last("https://x/issues/42", '/'), "42");
    assert_eq!(segment_after_last("42", '/'), "42");
    assert_eq!(segment_after_last("issues/", '/'), "");
    assert_eq!(segment_after_last("", '/'), "");
}

#[test]
fn joining_puts_separators_between() {
    assert_eq!(join(&vec![], "; "), "");
    assert_eq!(join(&vec!["a".to_string()], "; "), "a");
    assert_eq!(join(&vec!["a".to_string(), "b".to_string(), String::new()], "; "), "a; b; ");
}

#[test]
fn numbers_are_written_in_digits() {
    assert_eq!(decimal_text(0), "0");
    assert_eq!(decimal_text(10), "10");
    assert_eq!(decimal_text(u64::MAX), "18446744073709551615");
    assert_eq!(hex_text(&vec![0, 15, 16, 255]), "000f10ff");
    assert_eq!(hex_text(&vec![]), "");
}

#[test]
fn strings_are_escaped_as_in_json() {
    let all: String = ('\0'..='\u{ff}').collect::<String>() + "\u{2028}错\u{1f600}";
    let mut record = ExceptionRecord::new("c", ExceptionKind::Panic, &all, "");
    record.dedup_signature = "s".to_string();
    let prompt = build_user_prompt(&vec![record], &vec![]);
    let mut expected = String::from("\"message\":\"");
    for c in all.chars() {
        match c {
            '"' => expected.push_str("\\\""),
            '\\' => expected.push_str("\\\\"),
            '\u{8}' => expected.push_str("\\b"),
            '\t' => expected.push_str("\\t"),
            '\n' => expected.push_str("\\n"),
            '\u{c}' => expected.push_str("\\f"),
            '\r' => expected.push_str("\\r"),
            c if c < ' ' => expected.push_str(&format!("\\u{:04x}", c as u32)),
            c => expected.push(c),
        }
    }
    expected.push_str("\",\"stacktrace\":\"\"");
    assert!(prompt.contains(&expected));
}

#[test]
fn instants_are_those_of_chrono() {
    assert_eq!(MIN_SECS, chrono::DateTime::<chrono::Utc>::MIN_UTC.timestamp());
    assert_eq!(MAX_SECS, chrono::DateTime::<chrono::Utc>::MAX_UTC.timestamp());
    for (secs, nanos) in [
        (0, 0),
        (MIN_SECS, 0),
        (MIN_SECS - 1, 0),
        (MIN_SECS - 1, 1_000_000_000),
        (MAX_SECS, 999_999_999),
        (MAX_SECS, 1_999_999_999),
        (MAX_SECS + 1, 0),
        (0, 1_000_000_000),
        (59, 1_000_000_000),
        (-1, 1_999_999_999),
        (-2, 1_000_000_000),
        (59, 2_000_000_000),
        (i64::MIN, 0),
        (i64::MAX, 0),
    ] {
        assert_eq!(
            Timestamp::new(secs, nanos).is_some(),
            chrono::DateTime::from_timestamp(secs, nanos).is_some(),
            "{secs} {nanos}"
        );
    }
}

#[test]
fn minutes_are_added_as_chrono_adds_them() {
    for (secs, nanos) in [(0, 7), (59, 1_500_000_000), (-61, 999_999_999)] {
        let sum = chrono::DateTime::from_timestamp(secs, nanos).unwrap()
            + chrono::TimeDelta::minutes(5);
        let ours = Timestamp::new(secs, nanos).unwrap().plus_minutes(5);
        assert_eq!(ours.unix_secs(), sum.timestamp());
        assert_eq!(ours.subsec_nanos(), sum.timestamp_subsec_nanos());
    }
    let last = Timestamp::new(MAX_SECS - 300, 0).unwrap();
    assert!(last.has_room_for(5));
    assert!(!last.has_room_for(6));
}

#[test]
fn durations_are_spans_of_whole_units() {
    assert_eq!(Duration::from_mins(5), Duration::from_secs(300));
    assert_eq!(Duration::from_millis(1234), Duration { secs: 1, nanos: 234_000_000 });
    assert_eq!(Duration::from_millis(0), Duration::from_secs(0));
}
