use jasblog_editor::text::{bytes_no_greater, name_no_greater};

#[test]
fn bytes_are_ordered_lexicographically() {
    assert!(bytes_no_greater(b"", b""));
    assert!(bytes_no_greater(b"", b"a"));
    assert!(!bytes_no_greater(b"a", b""));
    assert!(bytes_no_greater(b"abc", b"abc"));
    assert!(bytes_no_greater(b"ab", b"abc"));
    assert!(!bytes_no_greater(b"abc", b"ab"));
    assert!(bytes_no_greater(b"abc", b"abd"));
    assert!(!bytes_no_greater(b"abd", b"abc"));
    assert!(bytes_no_greater(b"Z", b"a"));
    assert!(bytes_no_greater(&[0x7f], &[0x80]));
    assert!(!bytes_no_greater(&[0xff], &[0x00, 0x01]));
}

#[test]
fn names_are_ordered_without_regard_to_case() {
    assert!(name_no_greater("a", "B"));
    assert!(!name_no_greater("B", "a"));
    assert!(name_no_greater("README", "readme"));
    assert!(name_no_greater("readme", "README"));
    assert!(name_no_greater("a.md", "B.md"));
    assert!(!name_no_greater("abc", "AB"));
    assert!(name_no_greater("", "a"));
}

#[test]
fn case_is_folded_beyond_ascii() {
    assert!(name_no_greater("\u{c4}", "\u{e4}"));
    assert!(name_no_greater("\u{e4}", "\u{c4}"));
    assert!(name_no_greater("\u{3a9}mega", "\u{3c9}mega"));
    assert!(name_no_greater("z", "\u{c4}"));
    assert!(!name_no_greater("\u{c4}", "z"));
}
