use frogolio::dates::{format_date, shown_or_stored};
use frogolio::errors::{AppError, ErrorKind};
use frogolio::text::{
    ascii_lowercase, char_is_space, chars_eq, chars_of, contains_char, count_leading,
    count_trailing, decimal, lowercase, owned, slice_of, split, starts_with, str_eq,
    to_ascii_lower, trim, Trim,
};

fn chars(s: &str) -> Vec<char> {
    s.chars().collect()
}

fn text(v: Vec<char>) -> String {
    v.into_iter().collect()
}

#[test]
fn white_space_in_ascii_is_what_the_standard_library_says() {
    for code in 0u32..128 {
        let c = char::from_u32(code).unwrap();
        assert_eq!(char_is_space(c), c.is_whitespace(), "code {}", code);
    }
}

#[test]
fn white_space_beyond_ascii_is_what_the_standard_library_says() {
    for c in ['\u{85}', '\u{a0}', '\u{1680}', '\u{2003}', '\u{2028}', '\u{3000}', '\u{e9}', '\u{200b}'] {
        assert_eq!(char_is_space(c), c.is_whitespace());
    }
}

#[test]
fn lower_case_is_what_the_standard_library_gives() {
    for s in ["", "Hello World", "ABC-xyz_09", "\u{212a}ELVIN", "\u{130}", "\u{3a3}\u{391}\u{3a3}", "Stra\u{1e9e}e", "@[`{"] {
        assert_eq!(text(lowercase(&chars(s))), s.to_lowercase(), "text {:?}", s);
    }
    for code in 0u32..128 {
        let c = char::from_u32(code).unwrap();
        assert_eq!(to_ascii_lower(c), c.to_ascii_lowercase());
    }
    assert_eq!(text(ascii_lowercase(&chars("A\u{c9}Z"))), "a\u{c9}z");
}

#[test]
fn trimming_is_what_the_standard_library_does() {
    for s in ["", " ", "  a b  ", "\t\n x", "x\r\n", "\u{a0}x\u{3000}", "\u{b}v\u{c}", "-a-"] {
        assert_eq!(text(trim(&chars(s), Trim::Whitespace)), s.trim(), "text {:?}", s);
    }
    for s in ["", "-", "--a-b--", "a", " -a- ", "---"] {
        assert_eq!(text(trim(&chars(s), Trim::Dashes)), s.trim_matches('-'), "text {:?}", s);
    }
    assert_eq!(count_leading(&chars("  a "), Trim::Whitespace), 2);
    assert_eq!(count_trailing(&chars("  a "), Trim::Whitespace), 1);
    assert_eq!(count_leading(&chars("   "), Trim::Whitespace), 3);
    assert_eq!(count_trailing(&chars("--"), Trim::Dashes), 2);
}

#[test]
fn texts_are_cut_as_the_standard_library_cuts_them() {
    for s in ["", "a", "a&b", "&", "a&&b&", "&&", "id=1&id=2"] {
        let pieces: Vec<String> = split(&chars(s), '&').into_iter().map(text).collect();
        let expected: Vec<String> = s.split('&').map(|p| p.to_string()).collect();
        assert_eq!(pieces, expected, "text {:?}", s);
    }
}

#[test]
fn numbers_are_written_in_decimal() {
    for n in [0usize, 1, 9, 10, 11, 99, 100, 101, 12345, 1000000, usize::MAX] {
        assert_eq!(decimal(n), n.to_string());
    }
}

#[test]
fn small_helpers_compare_and_cut_texts() {
    assert_eq!(chars_of("h\u{e9}llo"), chars("h\u{e9}llo"));
    assert!(chars_eq(&chars("ab"), &chars("ab")));
    assert!(!chars_eq(&chars("ab"), &chars("abc")));
    assert!(!chars_eq(&chars("ab"), &chars("aB")));
    assert!(str_eq("", ""));
    assert!(str_eq("x\u{e9}", "x\u{e9}"));
    assert!(!str_eq("x", "y"));
    assert!(starts_with(&chars("https://x"), &chars("https://")));
    assert!(starts_with(&chars("abc"), &chars("")));
    assert!(!starts_with(&chars("http"), &chars("https://")));
    assert!(!starts_with(&chars("xhttps://"), &chars("https://")));
    assert_eq!(text(slice_of(&chars("abcdef"), 2, 4)), "cd");
    assert_eq!(text(slice_of(&chars("abc"), 3, 3)), "");
    assert!(contains_char(&chars("a@b"), '@'));
    assert!(!contains_char(&chars("ab"), '@'));
    assert_eq!(owned(Some("x")), Some("x".to_string()));
    assert_eq!(owned(None), None);
}

#[test]
fn instants_are_shown_in_their_own_offset() {
    assert_eq!(format_date("2024-03-05T21:07:09+00:00"), "Mar 05, 2024 at 09:07 PM");
    assert_eq!(format_date("2024-03-05T21:07:09Z"), "Mar 05, 2024 at 09:07 PM");
    assert_eq!(format_date("2023-12-31T00:00:00-08:00"), "Dec 31, 2023 at 12:00 AM");
    assert_eq!(format_date("1999-01-02T12:30:45.123+05:30"), "Jan 02, 1999 at 12:30 PM");
}

#[test]
fn what_is_no_instant_is_shown_as_it_stands() {
    for s in ["", "yesterday", "2024-03-05 21:07:09", "2024-13-01T00:00:00Z"] {
        assert_eq!(format_date(s), s);
    }
    assert_eq!(shown_or_stored(Some("shown".to_string()), "stored"), "shown");
    assert_eq!(shown_or_stored(None, "stored"), "stored");
}

#[test]
fn errors_map_to_statuses_and_messages() {
    let cases = [
        (AppError::Database("no such table".into()), ErrorKind::Database, 500, "Database error", "Database error: no such table"),
        (AppError::InvalidInput("bad".into()), ErrorKind::InvalidInput, 400, "bad", "Invalid input: bad"),
        (AppError::InternalError("oops".into()), ErrorKind::InternalError, 500, "oops", "Internal error: oops"),
        (AppError::ValidationError("big".into()), ErrorKind::ValidationError, 400, "big", "Validation error: big"),
        (AppError::Internal("disk".into()), ErrorKind::Internal, 500, "disk", "Internal server error: disk"),
    ];
    for (error, kind, status, public, full) in cases {
        assert_eq!(error.error_kind(), kind);
        assert_eq!(error.status_code(), status);
        assert_eq!(error.public_message(), public);
        assert_eq!(error.describe(), full);
    }
}
