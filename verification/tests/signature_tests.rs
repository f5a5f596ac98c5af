use exception_collector::normalize::ZEROS;
use exception_collector::signature::signature_input;
use exception_collector::{
    compute_signature, kind_to_bytes, normalize_message, top_stack_frames, ExceptionKind,
    ExceptionRecord,
};

fn make_record(
    component: &str,
    kind: ExceptionKind,
    message: &str,
    stacktrace: &str,
) -> ExceptionRecord {
    ExceptionRecord::new(component, kind, message, stacktrace)
}

#[test]
fn test_should_replace_numbers_with_wildcard() {
    assert_eq!(normalize_message("error code 42"), "error code *");
    assert_eq!(
        normalize_message("retry after 3 seconds"),
        "retry after * seconds"
    );
    assert_eq!(normalize_message("value is 3.14"), "value is *");
    assert_eq!(normalize_message("got 0 and 999"), "got * and *");
}

#[test]
fn test_should_replace_file_paths_with_wildcard() {
    assert_eq!(
        normalize_message("panic at /home/user/project/src/main.rs:42"),
        "panic at */src/*:*"
    );
    assert_eq!(
        normalize_message("/opt/app/src/lib/mod.rs:128 failed"),
        "*/src/*:* failed"
    );
}

#[test]
fn test_should_replace_ip_addresses() {
    assert_eq!(
        normalize_message("connection refused from 192.168.1.1"),
        "connection refused from *"
    );
    assert_eq!(
        normalize_message("timeout to 10.0.0.1:8080"),
        "timeout to *:*"
    );
    assert_eq!(
        normalize_message("loopback ::1 unreachable"),
        "loopback * unreachable"
    );
}

#[test]
fn test_should_replace_uuids() {
    assert_eq!(
        normalize_message("user 550e8400-e29b-41d4-a716-446655440000 not found"),
        "user * not found"
    );
    assert_eq!(
        normalize_message("request {a1b2c3d4-e5f6-7890-abcd-ef1234567890} failed"),
        "request * failed"
    );
}

#[test]
fn test_should_preserve_error_structure() {
    // Non-dynamic text should be preserved
    assert_eq!(normalize_message("ConnectionRefused"), "ConnectionRefused");
    assert_eq!(
        normalize_message("failed to open file"),
        "failed to open file"
    );
    // Mixed content: text preserved, numbers replaced
    let result = normalize_message("timeout after 30 seconds connecting to 10.0.0.1");
    assert!(result.contains("timeout after"));
    assert!(result.contains("seconds connecting to"));
    assert!(!result.contains("30"));
    assert!(!result.contains("10.0.0.1"));
}

#[test]
fn test_should_handle_empty_message() {
    assert_eq!(normalize_message(""), "");
}

#[test]
fn test_should_produce_same_signature_for_same_exception() {
    let stacktrace = "frame1\nframe2\nframe3\nframe4\n";
    let r1 = make_record(
        "comp-a",
        ExceptionKind::Panic,
        "something broke",
        stacktrace,
    );
    let r2 = make_record(
        "comp-a",
        ExceptionKind::Panic,
        "something broke",
        stacktrace,
    );

    assert_eq!(compute_signature(&r1), compute_signature(&r2));
}

#[test]
fn test_should_produce_different_signature_for_different_exceptions() {
    let r1 = make_record("comp-a", ExceptionKind::Panic, "error one", "");
    let r2 = make_record("comp-a", ExceptionKind::Panic, "error two", "");

    assert_ne!(compute_signature(&r1), compute_signature(&r2));
}

#[test]
fn test_should_use_top_3_stack_frames_only() {
    let many_frames = "frame1\nframe2\nframe3\nframe4\nframe5\nframe6\n";
    let few_frames = "frame1\nframe2\nframe3\n";

    let r1 = make_record("comp", ExceptionKind::ErrorLog, "msg", many_frames);
    let r2 = make_record("comp", ExceptionKind::ErrorLog, "msg", few_frames);

    // Both should produce the same signature because only top 3 frames are used
    assert_eq!(compute_signature(&r1), compute_signature(&r2));
}

#[test]
fn test_should_include_component_in_signature() {
    let r1 = make_record("comp-a", ExceptionKind::Panic, "msg", "");
    let r2 = make_record("comp-b", ExceptionKind::Panic, "msg", "");

    assert_ne!(compute_signature(&r1), compute_signature(&r2));
}

#[test]
fn test_should_include_exception_kind_in_signature() {
    let r1 = make_record("comp", ExceptionKind::Panic, "msg", "");
    let r2 = make_record("comp", ExceptionKind::ErrorLog, "msg", "");
    let r3 = make_record("comp", ExceptionKind::ResultErr, "msg", "");

    assert_ne!(compute_signature(&r1), compute_signature(&r2));
    assert_ne!(compute_signature(&r1), compute_signature(&r3));
    assert_ne!(compute_signature(&r2), compute_signature(&r3));
}

#[test]
fn test_should_return_64_char_hex_string() {
    let record = make_record("comp", ExceptionKind::Panic, "msg", "");
    let sig = compute_signature(&record);

    assert_eq!(sig.len(), 64);
    assert!(sig.chars().all(|c| c.is_ascii_hexdigit()));
}

#[test]
fn test_should_handle_empty_stacktrace() {
    let record = make_record("comp", ExceptionKind::ResultErr, "some error", "");
    let sig = compute_signature(&record);

    assert_eq!(sig.len(), 64);
}

#[test]
fn test_should_handle_stacktrace_with_blank_lines() {
    let with_blanks = "\n\nframe1\n\nframe2\nframe3\n\n";
    let compact = "frame1\nframe2\nframe3";

    let r1 = make_record("comp", ExceptionKind::ErrorLog, "msg", with_blanks);
    let r2 = make_record("comp", ExceptionKind::ErrorLog, "msg", compact);

    // Both should produce the same signature (blank lines are skipped)
    assert_eq!(compute_signature(&r1), compute_signature(&r2));
}

#[test]
fn frames_are_the_lines_that_are_not_blank() {
    assert_eq!(top_stack_frames("a\n\n \t\nb\r\nc\nd", 3), vec!["a", "b", "c"]);
    assert_eq!(top_stack_frames("a\n", 3), vec!["a"]);
    assert_eq!(top_stack_frames("a\nb", 0), Vec::<&str>::new());
    assert_eq!(top_stack_frames("", 3), Vec::<&str>::new());
    assert_eq!(top_stack_frames("  a  \n", 3), vec!["  a  "]);
    for text in ["a\r\r\nb\r", "\u{3000}\nx", "x\n\ry", "\r\n\r\n", "q\n\n\n"] {
        let expected: Vec<&str> = text
            .lines()
            .filter(|line| !line.trim().is_empty())
            .take(3)
            .collect();
        assert_eq!(top_stack_frames(text, 3), expected);
    }
}

#[test]
fn kinds_have_their_names_in_bytes() {
    assert_eq!(kind_to_bytes(ExceptionKind::Panic), b"panic\0");
    assert_eq!(kind_to_bytes(ExceptionKind::ErrorLog), b"error_log\0");
    assert_eq!(kind_to_bytes(ExceptionKind::ResultErr), b"result_err\0");
}

#[test]
fn a_signature_digests_component_kind_message_and_frames() {
    let record = make_record("comp", ExceptionKind::Panic, "code 7", "f1\nf2\nf3\nf4");
    assert_eq!(signature_input(&record, "code *"), b"comppanic\0code *f1f2f3");
    let digest = <sha2::Sha256 as sha2::Digest>::digest(b"comppanic\0code *f1f2f3");
    let expected: String = digest.iter().map(|b| format!("{b:02x}")).collect();
    assert_eq!(compute_signature(&record), expected);
}

#[test]
fn the_delimiter_tells_the_kind_from_component_and_message() {
    let r1 = make_record("x", ExceptionKind::Panic, "panicy", "");
    let r2 = make_record("xpanic", ExceptionKind::Panic, "y", "");
    assert_ne!(signature_input(&r1, "panicy"), signature_input(&r2, "y"));
    assert_ne!(compute_signature(&r1), compute_signature(&r2));
}

#[test]
fn ipv6_addresses_become_one_star_each() {
    for address in [
        "2001:db8::1",
        "2001:0db8:85a3:0000:0000:8a2e:0370:7334",
        "1:2::3:4",
        "1::2:3:4:5:6:7",
        "1:2:3:4:5:6::8",
        "::1:2:3:4:5:6:7",
        "1:2:3:4:5:6:7::",
        "fe80::",
        "fe80::1%eth0",
        "::1",
    ] {
        assert_eq!(normalize_message(address), "*");
        assert_eq!(
            normalize_message(&format!("from {address} and [{address}]")),
            "from * and [*]"
        );
    }
}

#[test]
fn paths_of_modules_are_no_addresses() {
    for text in ["foo::bar", "std::fmt::Error", "tokio::main", "a path::of::words"] {
        assert_eq!(normalize_message(text), text);
    }
}

#[test]
fn addresses_may_touch_words() {
    assert_eq!(normalize_message("peer::1 down"), "peer* down");
    assert_eq!(normalize_message("ab::12345"), "**");
    assert_eq!(normalize_message("face::book"), "*book");
    assert_eq!(normalize_message("[::1]:8080"), "[*]:*");
}

#[test]
fn zeros_start_the_decimal_digits() {
    let digit = regex::Regex::new(r"^\d$").unwrap();
    let zeros: Vec<u32> = ZEROS.chars().map(u32::from).collect();
    for c in '\0'..=char::MAX {
        let code = u32::from(c);
        let listed = zeros.iter().any(|zero| (*zero..=*zero + 9).contains(&code));
        let mut buffer = [0; 4];
        assert_eq!(listed, digit.is_match(c.encode_utf8(&mut buffer)), "{c:?}");
    }
}

/// Words made of what the patterns look for, in all orders up to three parts and
/// in some longer ones.
fn words() -> Vec<String> {
    let parts = [
        "a", "1", "12345", "ab", "z", "::", ":", ".", "*", "-", "/src/", "/", "1.2.3.4", "%",
        "fe80", "{", "}", "550e8400-e29b-41d4-a716-446655440000", "_", "é", "5.", "٣", "ffff", "$",
    ];
    let mut out = vec![];
    for a in parts {
        out.push(a.to_string());
        for b in parts {
            out.push(format!("{a}{b}"));
            for c in parts {
                out.push(format!("{a}{b}{c}"));
            }
        }
    }
    let mut seed: u64 = 7;
    for _ in 0..20_000 {
        let mut word = String::new();
        for _ in 0..8 {
            seed = seed.wrapping_mul(6364136223846793005).wrapping_add(1442695040888963407);
            word.push_str(parts[(seed >> 33) as usize % parts.len()]);
        }
        out.push(word);
    }
    out
}

#[test]
fn nothing_is_left_to_replace() {
    let once = normalize_message(&words().join(" "));
    assert_eq!(normalize_message(&once), once);
}

#[test]
fn no_replacement_reaches_across_a_space() {
    let all = words();
    let whole = normalize_message(&all.join(" "));
    let parts: Vec<&str> = whole.split(' ').collect();
    assert_eq!(parts.len(), all.len());
    for i in (0..all.len()).step_by(997) {
        assert_eq!(parts[i], normalize_message(&all[i]));
    }
    assert_eq!(normalize_message(" 1  2 "), " *  * ");
}

#[test]
fn plain_text_stays() {
    for text in ["", " ", "*", "a.b/src/c", "错误 (é) {x}_y%", "no/src/line"] {
        assert_eq!(normalize_message(text), text);
    }
}

#[test]
fn messages_that_differ_in_numbers_share_a_signature() {
    let r1 = make_record("comp", ExceptionKind::Panic, "attempt 1 of 10.0.0.1", "f");
    let r2 = make_record("comp", ExceptionKind::Panic, "attempt 22 of 10.0.0.2", "f");
    assert_eq!(compute_signature(&r1), compute_signature(&r2));
}
