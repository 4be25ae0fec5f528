use rust_tesseract::text::{
    append_chars, chars_of, decimal_string, field_spans, find_char, find_last_char,
    has_suffix, line_spans, matches_ignoring_case, parse_i32_at, same_text, text_of,
    to_ascii_upper, without_char,
};

fn lines_of(s: &str) -> Vec<String> {
    let cs = chars_of(s);
    line_spans(&cs).iter().map(|p| text_of(&cs, p.start, p.end)).collect()
}

fn fields_of(s: &str, sep: char) -> Vec<String> {
    let cs = chars_of(s);
    field_spans(&cs, 0, cs.len(), sep).iter().map(|p| text_of(&cs, p.start, p.end)).collect()
}

fn parse(s: &str) -> Option<i32> {
    let cs = chars_of(s);
    parse_i32_at(&cs, 0, cs.len())
}

#[test]
fn chars_of_keeps_every_character() {
    assert_eq!(chars_of("aé字 b"), vec!['a', 'é', '字', ' ', 'b']);
    assert_eq!(chars_of(""), Vec::<char>::new());
}

#[test]
fn text_of_cuts_a_window() {
    let cs = chars_of("hello world");
    assert_eq!(text_of(&cs, 6, 11), "world");
    assert_eq!(text_of(&cs, 3, 3), "");
    assert_eq!(text_of(&cs, 0, 11), "hello world");
}

#[test]
fn append_adds_at_the_end() {
    let cs = chars_of("abcdef");
    let mut s = String::from("x");
    append_chars(&mut s, &cs, 2, 4);
    assert_eq!(s, "xcd");
    append_chars(&mut s, &cs, 5, 5);
    assert_eq!(s, "xcd");
    append_chars(&mut s, &cs, 0, 1);
    assert_eq!(s, "xcda");
}

#[test]
fn find_char_gives_the_first_occurrence_in_the_window() {
    let cs = chars_of("a b c");
    assert_eq!(find_char(&cs, 0, 5, ' '), 1);
    assert_eq!(find_char(&cs, 2, 5, ' '), 3);
    assert_eq!(find_char(&cs, 4, 5, ' '), 5);
    assert_eq!(find_char(&cs, 0, 1, ' '), 1);
}

#[test]
fn find_last_char_gives_the_last_occurrence() {
    assert_eq!(find_last_char(&chars_of("a.b.c"), '.'), Some(3));
    assert_eq!(find_last_char(&chars_of("abc"), '.'), None);
    assert_eq!(find_last_char(&chars_of("."), '.'), Some(0));
    assert_eq!(find_last_char(&chars_of(""), '.'), None);
}

#[test]
fn lines_end_at_line_feeds() {
    assert_eq!(lines_of("a\nb\nc"), vec!["a", "b", "c"]);
    assert_eq!(lines_of("a\nb\n"), vec!["a", "b"]);
    assert_eq!(lines_of(""), Vec::<String>::new());
    assert_eq!(lines_of("\n"), vec![""]);
    assert_eq!(lines_of("\n\n"), vec!["", ""]);
    assert_eq!(lines_of("one line"), vec!["one line"]);
}

#[test]
fn lines_drop_the_carriage_return_before_a_line_feed_only() {
    assert_eq!(lines_of("a\r\nb\r\n"), vec!["a", "b"]);
    assert_eq!(lines_of("a\rb\nc\r"), vec!["a\rb", "c\r"]);
    assert_eq!(lines_of("\r\n"), vec![""]);
    assert_eq!(lines_of("a\r\r\n"), vec!["a\r"]);
}

#[test]
fn lines_agree_with_the_standard_library() {
    for s in ["", "a", "a\n", "\na", "a\r\nb", "a\n\nb\r", "\r", "\r\n\r\n", "x\ry\r\nz"] {
        let expected: Vec<String> = s.lines().map(|l| l.to_string()).collect();
        assert_eq!(lines_of(s), expected);
    }
}

#[test]
fn fields_lie_between_separators() {
    assert_eq!(fields_of("10 20 30 40", ' '), vec!["10", "20", "30", "40"]);
    assert_eq!(fields_of("", ' '), vec![""]);
    assert_eq!(fields_of("a", ' '), vec!["a"]);
    assert_eq!(fields_of("a  b", ' '), vec!["a", "", "b"]);
    assert_eq!(fields_of(" a ", ' '), vec!["", "a", ""]);
}

#[test]
fn fields_agree_with_the_standard_library() {
    for s in ["", " ", "a b", "a  b ", "  ", "1 2 3"] {
        let expected: Vec<String> = s.split(' ').map(|l| l.to_string()).collect();
        assert_eq!(fields_of(s, ' '), expected);
    }
}

#[test]
fn parse_reads_signed_decimal_numbers() {
    assert_eq!(parse("0"), Some(0));
    assert_eq!(parse("42"), Some(42));
    assert_eq!(parse("-42"), Some(-42));
    assert_eq!(parse("+42"), Some(42));
    assert_eq!(parse("007"), Some(7));
    assert_eq!(parse("-0"), Some(0));
    assert_eq!(parse("2147483647"), Some(i32::MAX));
    assert_eq!(parse("-2147483648"), Some(i32::MIN));
    assert_eq!(parse("0000000000000000000000012"), Some(12));
}

#[test]
fn parse_refuses_everything_else() {
    assert_eq!(parse(""), None);
    assert_eq!(parse("-"), None);
    assert_eq!(parse("+"), None);
    assert_eq!(parse("12a"), None);
    assert_eq!(parse(" 12"), None);
    assert_eq!(parse("12 "), None);
    assert_eq!(parse("1_000"), None);
    assert_eq!(parse("--1"), None);
    assert_eq!(parse("1.5"), None);
    assert_eq!(parse("2147483648"), None);
    assert_eq!(parse("-2147483649"), None);
    assert_eq!(parse("99999999999999999999"), None);
    assert_eq!(parse("٣"), None);
}

#[test]
fn parse_agrees_with_the_standard_library() {
    for s in ["", "0", "-", "+7", "-7", "12x", "2147483647", "2147483648", "-2147483648", "00"] {
        assert_eq!(parse(s), s.parse::<i32>().ok());
    }
}

#[test]
fn parse_reads_a_window() {
    let cs = chars_of("A 10 -20");
    assert_eq!(parse_i32_at(&cs, 2, 4), Some(10));
    assert_eq!(parse_i32_at(&cs, 5, 8), Some(-20));
    assert_eq!(parse_i32_at(&cs, 0, 1), None);
    assert_eq!(parse_i32_at(&cs, 4, 4), None);
}

#[test]
fn decimal_string_writes_numbers() {
    assert_eq!(decimal_string(0), "0");
    assert_eq!(decimal_string(7), "7");
    assert_eq!(decimal_string(150), "150");
    assert_eq!(decimal_string(-1), "-1");
    assert_eq!(decimal_string(i32::MAX), "2147483647");
    assert_eq!(decimal_string(i32::MIN), "-2147483648");
}

#[test]
fn decimal_string_is_read_back_by_parse() {
    for v in [0, 1, -1, 9, 10, 99, 100, 150, -150, 1000000, i32::MAX, i32::MIN] {
        assert_eq!(parse(&decimal_string(v)), Some(v));
        assert_eq!(decimal_string(v), v.to_string());
    }
}

#[test]
fn upper_case_touches_small_ascii_letters_only() {
    assert_eq!(to_ascii_upper('a'), 'A');
    assert_eq!(to_ascii_upper('z'), 'Z');
    assert_eq!(to_ascii_upper('A'), 'A');
    assert_eq!(to_ascii_upper('1'), '1');
    assert_eq!(to_ascii_upper('.'), '.');
    assert_eq!(to_ascii_upper('é'), 'é');
    assert_eq!(to_ascii_upper('ı'), 'ı');
    assert_eq!(to_ascii_upper('`'), '`');
    assert_eq!(to_ascii_upper('{'), '{');
}

#[test]
fn matching_ignores_ascii_case() {
    let cs = chars_of("x.PnG");
    assert!(matches_ignoring_case(&cs, 2, 5, "PNG"));
    assert!(matches_ignoring_case(&cs, 2, 5, "png"));
    assert!(!matches_ignoring_case(&cs, 2, 5, "PN"));
    assert!(!matches_ignoring_case(&cs, 1, 5, "PNG"));
    assert!(!matches_ignoring_case(&cs, 2, 5, "JPG"));
    assert!(matches_ignoring_case(&cs, 5, 5, ""));
}

#[test]
fn same_text_compares_character_by_character() {
    assert!(same_text("psm", "psm"));
    assert!(!same_text("psm", "oem"));
    assert!(!same_text("psm", "psm "));
    assert!(!same_text("PSM", "psm"));
    assert!(same_text("", ""));
}

#[test]
fn suffix_test() {
    assert!(has_suffix("out.txt", ".txt"));
    assert!(!has_suffix("out.txt.bak", ".txt"));
    assert!(!has_suffix("out", ".txt"));
    assert!(has_suffix(".txt", ".txt"));
    assert!(!has_suffix("txt", ".txt"));
    assert!(has_suffix("anything", ""));
}

#[test]
fn without_char_drops_every_occurrence() {
    assert_eq!(without_char("\"C:\\a b\\c.png\"", '"'), "C:\\a b\\c.png");
    assert_eq!(without_char("a\"b\"\"c", '"'), "abc");
    assert_eq!(without_char("plain", '"'), "plain");
    assert_eq!(without_char("\"\"", '"'), "");
}
