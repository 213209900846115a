use sieg::pty_text::{encode_char, key_to_bytes, render_pty_byte_lines, render_pty_lines, KeyCode};

#[test]
fn plain_text_splits_on_newline() {
    assert_eq!(render_pty_lines(b"hello\nworld"), vec!["hello", "world"]);
}

#[test]
fn carriage_return_clears_current_line() {
    // a shell redrawing "progress: 1%" then "progress: 99%" on one line
    assert_eq!(render_pty_lines(b"progress: 1%\rprogress: 99%"), vec!["progress: 99%"]);
}

#[test]
fn backspace_erases_last_byte() {
    assert_eq!(render_pty_lines(b"helllo\x7f world"), vec!["helll world"]);
}

#[test]
fn csi_sequences_are_stripped() {
    assert_eq!(render_pty_lines(b"\x1b[1;32mgreen\x1b[0m text"), vec!["green text"]);
}

#[test]
fn osc_sequences_are_stripped() {
    let mut raw = b"\x1b]0;window title\x07visible".to_vec();
    assert_eq!(render_pty_lines(&raw), vec!["visible"]);
    raw = b"\x1b]0;window title\x1b\\visible".to_vec();
    assert_eq!(render_pty_lines(&raw), vec!["visible"]);
}

#[test]
fn ctrl_c_maps_to_end_of_text_byte() {
    assert_eq!(key_to_bytes(KeyCode::Char('c'), true), Some(vec![0x03]));
}

#[test]
fn empty_input_renders_one_empty_line() {
    assert_eq!(render_pty_lines(b""), vec![""]);
    assert_eq!(render_pty_byte_lines(b""), vec![Vec::<u8>::new()]);
}

#[test]
fn trailing_newline_starts_an_empty_line() {
    assert_eq!(render_pty_lines(b"a\nb\n"), vec!["a", "b", ""]);
}

#[test]
fn backspace_on_empty_line_does_nothing() {
    assert_eq!(render_pty_lines(b"\x08\x7fx"), vec!["x"]);
    assert_eq!(render_pty_lines(b"ab\n\x08c"), vec!["ab", "c"]);
}

#[test]
fn carriage_return_newline_keeps_the_line() {
    assert_eq!(render_pty_lines(b"abc\r\ndef"), vec!["abc", "def"]);
    assert_eq!(render_pty_lines(b"hello\r\nworld"), vec!["hello", "world"]);
    assert_eq!(render_pty_lines(b"a\r\nb\r\n"), vec!["a", "b", ""]);
}

#[test]
fn bare_carriage_return_clears_when_written_over_or_at_the_end() {
    assert_eq!(render_pty_lines(b"abc\rx"), vec!["x"]);
    assert_eq!(render_pty_lines(b"abc\r"), vec![""]);
    assert_eq!(render_pty_lines(b"abc\r\x7f"), vec![""]);
    assert_eq!(render_pty_lines(b"abc\r\x1b[0m"), vec![""]);
    assert_eq!(render_pty_lines(b"abc\r\x1b[0mx\n"), vec!["x", ""]);
    assert_eq!(render_pty_lines(b"abc\r\x1b[0m\nd"), vec!["abc", "d"]);
}

#[test]
fn escape_sequences_leave_no_trace() {
    assert_eq!(render_pty_lines(b"ab\x1b[31mcd"), render_pty_lines(b"abcd"));
    assert_eq!(render_pty_lines(b"ab\x1b]0;t\x07cd"), render_pty_lines(b"abcd"));
    assert_eq!(render_pty_lines(b"ab\x1b]0;t\x1b\\cd"), render_pty_lines(b"abcd"));
    assert_eq!(render_pty_lines(b"ab\x1b]0;t\x1b\\\x07cd"), render_pty_lines(b"abcd"));
}

#[test]
fn escape_drops_itself_and_the_next_byte() {
    assert_eq!(render_pty_lines(b"a\x1b(Bb"), vec!["aBb"]);
    assert_eq!(render_pty_lines(b"a\x1b\x1bb"), vec!["ab"]);
}

#[test]
fn unterminated_sequences_swallow_the_rest() {
    assert_eq!(render_pty_lines(b"keep\x1b[12;3"), vec!["keep"]);
    assert_eq!(render_pty_lines(b"keep\x1b]0;title\nmore"), vec!["keep"]);
    assert_eq!(render_pty_lines(b"keep\x1b"), vec!["keep"]);
}

#[test]
fn bell_right_after_string_terminator_is_swallowed() {
    assert_eq!(render_pty_lines(b"\x1b]0;t\x1b\\\x07x"), vec!["x"]);
    assert_eq!(render_pty_lines(b"\x1b]0;t\x1b\\\x07\x07x"), vec!["\x07x"]);
}

#[test]
fn escape_inside_osc_without_backslash_continues_the_sequence() {
    assert_eq!(render_pty_lines(b"\x1b]0;a\x1bb\x07ok"), vec!["ok"]);
}

#[test]
fn csi_parameters_may_hold_newlines() {
    // Non-letter bytes, newlines among them, belong to the sequence.
    assert_eq!(render_pty_lines(b"a\x1b[1\n2mb"), vec!["ab"]);
}

#[test]
fn invalid_utf8_is_replaced() {
    assert_eq!(render_pty_lines(b"a\xffb"), vec!["a\u{fffd}b"]);
    assert_eq!(render_pty_byte_lines(b"a\xffb"), vec![vec![b'a', 0xff, b'b']]);
}

#[test]
fn multibyte_text_passes_through() {
    assert_eq!(render_pty_lines("héllo ✓".as_bytes()), vec!["héllo ✓"]);
}

#[test]
fn keys_map_to_terminal_bytes() {
    assert_eq!(key_to_bytes(KeyCode::Enter, false), Some(b"\r".to_vec()));
    assert_eq!(key_to_bytes(KeyCode::Backspace, false), Some(vec![0x7f]));
    assert_eq!(key_to_bytes(KeyCode::Tab, false), Some(b"\t".to_vec()));
    assert_eq!(key_to_bytes(KeyCode::Esc, false), Some(vec![0x1b]));
    assert_eq!(key_to_bytes(KeyCode::Up, false), Some(b"\x1b[A".to_vec()));
    assert_eq!(key_to_bytes(KeyCode::Down, false), Some(b"\x1b[B".to_vec()));
    assert_eq!(key_to_bytes(KeyCode::Right, false), Some(b"\x1b[C".to_vec()));
    assert_eq!(key_to_bytes(KeyCode::Left, false), Some(b"\x1b[D".to_vec()));
    assert_eq!(key_to_bytes(KeyCode::Other, false), None);
    assert_eq!(key_to_bytes(KeyCode::Other, true), None);
}

#[test]
fn ctrl_letters_map_to_control_bytes_either_case() {
    assert_eq!(key_to_bytes(KeyCode::Char('a'), true), Some(vec![1]));
    assert_eq!(key_to_bytes(KeyCode::Char('Z'), true), Some(vec![26]));
    // Ctrl with a non-letter sends the character itself.
    assert_eq!(key_to_bytes(KeyCode::Char('1'), true), Some(b"1".to_vec()));
    assert_eq!(key_to_bytes(KeyCode::Enter, true), Some(b"\r".to_vec()));
}

#[test]
fn characters_are_sent_as_utf8() {
    assert_eq!(key_to_bytes(KeyCode::Char('x'), false), Some(b"x".to_vec()));
    assert_eq!(key_to_bytes(KeyCode::Char('é'), false), Some("é".as_bytes().to_vec()));
    assert_eq!(encode_char('€'), "€".as_bytes().to_vec());
    assert_eq!(encode_char('😀'), "😀".as_bytes().to_vec());
    assert_eq!(encode_char('\u{7f}'), vec![0x7f]);
    assert_eq!(encode_char('\u{80}'), vec![0xc2, 0x80]);
}
