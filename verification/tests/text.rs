use sieg::text::{
    chars_of, clone_strings, join_strings, parse_usize, push_decimal, push_padded, split_words,
    string_of, tail_lines, text_eq, text_lines_exec, trim_chars,
};

fn lines(text: &str) -> Vec<String> {
    text_lines_exec(text).into_iter().map(|l| l.into_iter().collect()).collect()
}

#[test]
fn chars_round_trip() {
    let cs = chars_of("héllo");
    assert_eq!(cs, vec!['h', 'é', 'l', 'l', 'o']);
    assert_eq!(string_of(&cs), "héllo");
}

#[test]
fn join_with_separator() {
    let parts = vec!["a".to_string(), "b".to_string(), "c".to_string()];
    assert_eq!(join_strings(&parts, " "), "a b c");
    assert_eq!(join_strings(&vec!["x".to_string()], ", "), "x");
    assert_eq!(join_strings(&Vec::new(), " "), "");
    assert_eq!(clone_strings(&parts), parts);
}

#[test]
fn lines_follow_str_lines() {
    for text in ["", "a", "a\n", "a\nb", "a\r\nb\r\n", "a\rb", "\n\n", "x\n\ny\r", "tail\r"] {
        let expected: Vec<String> = text.lines().map(String::from).collect();
        assert_eq!(lines(text), expected, "lines of {:?}", text);
    }
}

#[test]
fn tail_keeps_the_last_lines() {
    assert_eq!(tail_lines("one\ntwo\nthree\n", 2), "two\nthree");
    assert_eq!(tail_lines("one\ntwo\nthree", 5), "one\ntwo\nthree");
    assert_eq!(tail_lines("one\ntwo", 0), "");
    assert_eq!(tail_lines("", 3), "");
    assert_eq!(tail_lines("a\r\nb\r\n", 1), "b");
}

#[test]
fn trim_and_words_follow_str() {
    for text in ["", "  web  ", "\t a b \n", "x", "\u{3000}name\u{a0}", "a\u{2009}b"] {
        let trimmed: String = trim_chars(&text.chars().collect()).into_iter().collect();
        assert_eq!(trimmed, text.trim(), "trim of {:?}", text);
        let words: Vec<String> = text.split_whitespace().map(String::from).collect();
        assert_eq!(split_words(text), words, "words of {:?}", text);
    }
}

#[test]
fn decimal_and_padding() {
    let mut s = String::from("n=");
    push_decimal(&mut s, 0);
    assert_eq!(s, "n=0");
    let mut t = String::new();
    push_decimal(&mut t, 4294967295);
    assert_eq!(t, "4294967295");
    let mut p = String::new();
    push_padded(&mut p, "ab", 5);
    assert_eq!(p, "ab   ");
    let mut q = String::new();
    push_padded(&mut q, "abcdef", 3);
    assert_eq!(q, "abcdef");
    let mut r = String::new();
    push_padded(&mut r, "é", 3);
    assert_eq!(r, format!("{:<3}", "é"));
}

#[test]
fn parse_usize_follows_str_parse() {
    for text in ["0", "42", "+7", "007", "", "+", "-1", "1x", " 1", "18446744073709551615", "18446744073709551616", "99999999999999999999999"] {
        assert_eq!(parse_usize(text), text.parse::<usize>().ok(), "parse of {:?}", text);
    }
}

#[test]
fn text_equality() {
    assert!(text_eq("--", "--"));
    assert!(!text_eq("--", "-"));
    assert!(!text_eq("ab", "ba"));
    assert!(text_eq("", ""));
}
