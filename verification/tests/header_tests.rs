use fischl::header::{content_length_from_header, header_text_ok, parse_u64, range_reports_complete};

#[test]
fn content_length_parses() {
    assert_eq!(content_length_from_header(Some(b"12345")), Some(12345));
    assert_eq!(content_length_from_header(Some(b"+7")), Some(7));
    assert_eq!(content_length_from_header(Some(b"007")), Some(7));
    assert_eq!(content_length_from_header(Some(b"18446744073709551615")), Some(u64::MAX));
    assert_eq!(content_length_from_header(None), None);
}

#[test]
fn content_length_rejects() {
    assert_eq!(content_length_from_header(Some(b"")), None);
    assert_eq!(content_length_from_header(Some(b"+")), None);
    assert_eq!(content_length_from_header(Some(b"-1")), None);
    assert_eq!(content_length_from_header(Some(b"12a")), None);
    assert_eq!(content_length_from_header(Some(b" 12")), None);
    assert_eq!(content_length_from_header(Some(b"18446744073709551616")), None);
    assert_eq!(content_length_from_header(Some(b"12\x7f")), None);
    assert_eq!(content_length_from_header(Some(b"\xc3\xa9")), None);
}

#[test]
fn parse_u64_matches_std() {
    for s in ["0", "42", "+42", "", "+", "-0", "99999999999999999999", "1 2", "18446744073709551615"] {
        assert_eq!(parse_u64(s.as_bytes()), s.parse::<u64>().ok(), "{}", s);
    }
}

#[test]
fn header_text_rules() {
    assert!(header_text_ok(b"bytes */100"));
    assert!(header_text_ok(b"a\tb"));
    assert!(!header_text_ok(b"a\nb"));
    assert!(!header_text_ok(b"\x7f"));
}

#[test]
fn content_range_complete() {
    assert!(range_reports_complete(Some(b"bytes */10611646760")));
    assert!(!range_reports_complete(Some(b"bytes 10611646759-10611646759/10611646760")));
    assert!(!range_reports_complete(Some(b"bytes */1\x01")));
    assert!(!range_reports_complete(Some(b"*")));
    assert!(!range_reports_complete(None));
}

#[test]
fn lengths_read_back() {
    for n in [0u64, 7, 10, 99, 1024, 10611646760, u64::MAX] {
        let text = n.to_string();
        assert_eq!(content_length_from_header(Some(text.as_bytes())), Some(n));
        let plus = format!("+{}", text);
        assert_eq!(content_length_from_header(Some(plus.as_bytes())), Some(n));
    }
}
