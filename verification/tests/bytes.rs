use gix_kit::bytes::{
    contains_byte, eq_bytes, eq_ignore_ascii_case, find_byte, rfind_byte, split_line, to_lower, to_vec,
};

#[test]
fn bytes_are_found_from_either_end() {
    assert_eq!(find_byte(b"a/b/c", b'/'), 1);
    assert_eq!(find_byte(b"abc", b'/'), 3);
    assert_eq!(find_byte(b"", b'/'), 0);
    assert_eq!(rfind_byte(b"a/b/c", b'/'), Some(3));
    assert_eq!(rfind_byte(b"/", b'/'), Some(0));
    assert_eq!(rfind_byte(b"abc", b'/'), None);
    assert_eq!(rfind_byte(b"", b'/'), None);
    assert!(contains_byte(b"a\0b", 0));
    assert!(!contains_byte(b"ab", 0));
    assert!(!contains_byte(b"", 0));
}

#[test]
fn letters_are_folded_and_nothing_else() {
    assert_eq!(to_lower(b'A'), b'a');
    assert_eq!(to_lower(b'Z'), b'z');
    assert_eq!(to_lower(b'a'), b'a');
    assert_eq!(to_lower(b'@'), b'@');
    assert_eq!(to_lower(b'['), b'[');
    assert_eq!(to_lower(0xC4), 0xC4);
    assert!(eq_ignore_ascii_case(b"Hello/World", b"hELLO/wORLD"));
    assert!(!eq_ignore_ascii_case(b"Hello", b"Hello "));
    assert!(!eq_ignore_ascii_case(b"a_b", b"a-b"));
    assert!(eq_ignore_ascii_case(b"", b""));
    assert!(eq_bytes(b"same", b"same"));
    assert!(!eq_bytes(b"same", b"Same"));
    assert!(!eq_bytes(b"same", b"sam"));
    assert_eq!(to_vec(b"copy"), b"copy".to_vec());
}

#[test]
fn lines_end_at_line_feeds() {
    assert_eq!(split_line(b"one\ntwo\n"), (&b"one"[..], &b"two\n"[..]));
    assert_eq!(split_line(b"one\r\ntwo"), (&b"one"[..], &b"two"[..]));
    assert_eq!(split_line(b"last"), (&b"last"[..], &b""[..]));
    assert_eq!(split_line(b"last\r"), (&b"last\r"[..], &b""[..]));
    assert_eq!(split_line(b"\n"), (&b""[..], &b""[..]));
    assert_eq!(split_line(b"\r\n\r\n"), (&b""[..], &b"\r\n"[..]));
    assert_eq!(split_line(b"a\rb\nc"), (&b"a\rb"[..], &b"c"[..]));
    assert_eq!(split_line(b"a\r\r\nc"), (&b"a\r"[..], &b"c"[..]));
}
