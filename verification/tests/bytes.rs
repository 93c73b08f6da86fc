use socks_hub::bytes::{
    eq_ignore_case, equal, find, matches_at, split_byte, split_once, to_lower, trim_blanks,
};

#[test]
fn find_gives_the_first_occurrence() {
    assert_eq!(find(b"abcabc", b"bc"), Some(1));
    assert_eq!(find(b"abcabc", b"abcabc"), Some(0));
    assert_eq!(find(b"abcabc", b"cb"), None);
    assert_eq!(find(b"ab", b"abc"), None);
    assert_eq!(find(b"", b"a"), None);
    assert_eq!(find(b"abc", b""), Some(0));
    assert_eq!(find(b"", b""), Some(0));
    assert_eq!(find(b"aab", b"ab"), Some(1));
}

#[test]
fn matches_at_compares_in_place() {
    assert!(matches_at(b"hello", b"ll", 2));
    assert!(!matches_at(b"hello", b"ll", 1));
    assert!(matches_at(b"hello", b"", 5));
    assert!(!matches_at(b"hello", b"", 6));
    assert!(!matches_at(b"hello", b"lo!", 3));
    assert!(!matches_at(b"hello", b"h", usize::MAX));
}

#[test]
fn split_once_cuts_around_the_first_occurrence() {
    assert_eq!(split_once(b"a\r\nb\r\nc", b"\r\n"), Some((&b"a"[..], &b"b\r\nc"[..])));
    assert_eq!(split_once(b"\r\n", b"\r\n"), Some((&b""[..], &b""[..])));
    assert_eq!(split_once(b"abc", b"\r\n"), None);
    assert_eq!(split_byte(b"host:80", b':'), Some((&b"host"[..], &b"80"[..])));
    assert_eq!(split_byte(b"host", b':'), None);
}

#[test]
fn comparing_bytes() {
    assert!(equal(b"", b""));
    assert!(equal(b"abc", b"abc"));
    assert!(!equal(b"abc", b"abd"));
    assert!(!equal(b"abc", b"ab"));
    assert!(eq_ignore_case(b"Proxy-Authorization", b"proxy-authorization"));
    assert!(eq_ignore_case(b"", b""));
    assert!(!eq_ignore_case(b"abc", b"abd"));
    assert!(!eq_ignore_case(b"abc", b"abcd"));
    assert!(!eq_ignore_case(b"@", b"`"));
    assert!(!eq_ignore_case(b"[", b"{"));
    assert_eq!(to_lower(b'A'), b'a');
    assert_eq!(to_lower(b'Z'), b'z');
    assert_eq!(to_lower(b'a'), b'a');
    assert_eq!(to_lower(b'@'), b'@');
    assert_eq!(to_lower(b'['), b'[');
}

#[test]
fn trimming_blanks() {
    assert_eq!(trim_blanks(b"  \t a b \t "), b"a b");
    assert_eq!(trim_blanks(b"a"), b"a");
    assert_eq!(trim_blanks(b""), b"");
    assert_eq!(trim_blanks(b" \t "), b"");
    assert_eq!(trim_blanks(b"\na "), b"\na");
}
