use gitu::text::{
    append_bytes, bytes_eq, bytes_of, copy_first_word, push_decimal, read_digits, split_lines,
    starts_with, starts_with_at,
};

#[test]
fn split_lines_drops_the_line_ends() {
    let lines = split_lines(b"a\nbc\n\nd");
    assert_eq!(lines, vec![b"a".to_vec(), b"bc".to_vec(), b"".to_vec(), b"d".to_vec()]);
}

#[test]
fn split_lines_of_nothing_is_nothing() {
    assert_eq!(split_lines(b""), Vec::<Vec<u8>>::new());
}

#[test]
fn split_lines_keeps_no_empty_line_behind_the_last_line_end() {
    assert_eq!(split_lines(b"a\n"), vec![b"a".to_vec()]);
    assert_eq!(split_lines(b"\n"), vec![b"".to_vec()]);
}

#[test]
fn decimal_of_zero_and_of_the_largest_number() {
    let mut out = b"n=".to_vec();
    push_decimal(&mut out, 0);
    assert_eq!(out, b"n=0".to_vec());
    let mut out = Vec::new();
    push_decimal(&mut out, u32::MAX);
    assert_eq!(out, b"4294967295".to_vec());
    let mut out = Vec::new();
    push_decimal(&mut out, 1205);
    assert_eq!(out, b"1205".to_vec());
}

#[test]
fn read_digits_reads_a_number_or_reports_that_it_does_not_fit() {
    assert_eq!(read_digits(b"x123y", 1, 4), Some(123));
    assert_eq!(read_digits(b"007", 0, 3), Some(7));
    assert_eq!(read_digits(b"", 0, 0), Some(0));
    assert_eq!(read_digits(b"4294967295", 0, 10), Some(u32::MAX));
    assert_eq!(read_digits(b"4294967296", 0, 10), None);
    assert_eq!(read_digits(b"99999999999", 0, 11), None);
}

#[test]
fn prefixes_are_found_where_they_stand() {
    assert!(starts_with(b"diff --git a/x b/x", b"diff --git "));
    assert!(!starts_with(b"dif", b"diff"));
    assert!(starts_with(b"abc", b""));
    assert!(starts_with_at(b"@@ -1 +1 @@", 5, b" +"));
    assert!(!starts_with_at(b"@@ -1 +1 @@", 6, b" +"));
    assert!(!starts_with_at(b"ab", 2, b"b"));
}

#[test]
fn bytes_are_compared_and_copied() {
    assert!(bytes_eq(b"abc", b"abc"));
    assert!(!bytes_eq(b"abc", b"abd"));
    assert!(!bytes_eq(b"abc", b"ab"));
    assert_eq!(bytes_of("git"), b"git".to_vec());
    let mut out = b"ab".to_vec();
    append_bytes(&mut out, b"cd");
    assert_eq!(out, b"abcd".to_vec());
}

#[test]
fn the_first_word_ends_at_the_first_blank() {
    assert_eq!(copy_first_word(b"abc123 fix the bug"), b"abc123".to_vec());
    assert_eq!(copy_first_word(b"main"), b"main".to_vec());
    assert_eq!(copy_first_word(b" x"), b"".to_vec());
}
