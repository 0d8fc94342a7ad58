use dubrust::util::{
    chars_of, decimal_string, ellipsize, string_of, tail_lines, to_ascii_lower, trim_chars,
    whitespace, zero_padded,
};

#[test]
fn decimal_notation() {
    assert_eq!(decimal_string(0), "0");
    assert_eq!(decimal_string(9), "9");
    assert_eq!(decimal_string(10), "10");
    assert_eq!(decimal_string(1234567), "1234567");
    assert_eq!(decimal_string(usize::MAX), usize::MAX.to_string());
}

#[test]
fn zero_padding() {
    assert_eq!(zero_padded(7, 3), "007");
    assert_eq!(zero_padded(42, 2), "42");
    assert_eq!(zero_padded(1234, 3), "1234");
    assert_eq!(zero_padded(0, 2), "00");
    assert_eq!(zero_padded(5, 0), "5");
}

#[test]
fn ellipsize_keeps_short_text() {
    assert_eq!(ellipsize("hello", 10), "hello");
    assert_eq!(ellipsize("hello", 5), "hello");
    assert_eq!(ellipsize("", 0), "");
}

#[test]
fn ellipsize_cuts_long_text() {
    assert_eq!(ellipsize("hello world", 5), "hell…");
    assert_eq!(ellipsize("привет мир", 4), "при…");
    assert_eq!(ellipsize("abc", 1), "…");
    assert_eq!(ellipsize("abc", 0), "…");
}

#[test]
fn tail_lines_keeps_last_nonblank() {
    let output = "first\n\n   second line  \r\nthird\n\n";
    assert_eq!(tail_lines(output, 2), "second line; third");
    assert_eq!(tail_lines(output, 3), "first; second line; third");
    assert_eq!(tail_lines(output, 10), "first; second line; third");
    assert_eq!(tail_lines(output, 0), "");
    assert_eq!(tail_lines("", 3), "");
    assert_eq!(tail_lines(" \n\t\n", 3), "");
    assert_eq!(tail_lines("single", 1), "single");
    assert_eq!(tail_lines("a\u{3000}\nb", 2), "a; b");
}

#[test]
fn character_helpers() {
    assert_eq!(chars_of("dé"), vec!['d', 'é']);
    assert_eq!(string_of(&vec!['o', 'k']), "ok");
    assert_eq!(trim_chars(&vec![' ', 'x', '\t', 'y', '\n']), vec!['x', '\t', 'y']);
    assert!(whitespace('\u{a0}'));
    assert!(whitespace('\r'));
    assert!(!whitespace('x'));
    assert!(!whitespace('\u{200b}'));
    assert_eq!(to_ascii_lower('Q'), 'q');
    assert_eq!(to_ascii_lower('Ж'), 'Ж');
    for c in ['\u{85}', '\u{2028}', '\u{1680}', '\u{205f}', ' ', 'a', 'Я', '\u{feff}'] {
        assert_eq!(whitespace(c), c.is_whitespace());
    }
}
