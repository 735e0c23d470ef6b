use hac_core_logic::text_object::{is_separator, Readonly, TextObject, Write};
use hac_core_logic::cursor::Cursor;

fn writable(s: &str) -> TextObject<Write> {
    TextObject::from(s).with_write()
}

#[test]
fn from_keeps_content() {
    let t: TextObject<Readonly> = TextObject::from("one\ntwo");
    assert_eq!(t.to_string(), "one\ntwo");
    assert_eq!(t.with_write().to_string(), "one\ntwo");
}

#[test]
fn default_is_empty() {
    let t: TextObject<Write> = TextObject::default();
    assert_eq!(t.to_string(), "");
    assert_eq!(t.len_lines(), 1);
}

#[test]
fn insert_char_at_cursor() {
    let mut t = writable("abc\ndef");
    t.insert_char('X', &Cursor::new(1, 1));
    assert_eq!(t.to_string(), "abc\ndXef");
    t.insert_char('!', &Cursor::new(3, 0));
    assert_eq!(t.to_string(), "abc!\ndXef");
}

#[test]
fn insert_char_outside_text_does_nothing() {
    let mut t = writable("ab");
    t.insert_char('X', &Cursor::new(0, 4));
    t.insert_char('X', &Cursor::new(9, 0));
    assert_eq!(t.to_string(), "ab");
}

#[test]
fn insert_then_erase_previous_restores() {
    let mut t = writable("abc\ndef");
    t.insert_char('X', &Cursor::new(1, 1));
    t.erase_previous_char(&Cursor::new(2, 1));
    assert_eq!(t.to_string(), "abc\ndef");
}

#[test]
fn erase_previous_char_at_start_is_noop() {
    let mut t = writable("ab");
    t.erase_previous_char(&Cursor::new(0, 0));
    assert_eq!(t.to_string(), "ab");
}

#[test]
fn erase_previous_char_joins_lines() {
    let mut t = writable("ab\ncd");
    t.erase_previous_char(&Cursor::new(0, 1));
    assert_eq!(t.to_string(), "abcd");
}

#[test]
fn erase_backwards_stops_at_line_start() {
    let mut t = writable("ab\ncd");
    t.erase_backwards_up_to_line_start(&Cursor::new(0, 1));
    assert_eq!(t.to_string(), "ab\ncd");
    t.erase_backwards_up_to_line_start(&Cursor::new(2, 1));
    assert_eq!(t.to_string(), "ab\nc");
}

#[test]
fn erase_current_char_removes_under_cursor() {
    let mut t = writable("abc");
    t.erase_current_char(&Cursor::new(1, 0));
    assert_eq!(t.to_string(), "ac");
    t.erase_current_char(&Cursor::new(2, 0));
    assert_eq!(t.to_string(), "ac");
}

#[test]
fn erase_until_eol_clears_to_end_of_line() {
    let mut t = writable("hello world\n");
    t.erase_until_eol(&Cursor::new(6, 0));
    assert_eq!(t.to_string(), "hello \n");
}

#[test]
fn erase_until_eol_on_last_line_without_terminator() {
    let mut t = writable("hello world");
    t.erase_until_eol(&Cursor::new(6, 0));
    assert_eq!(t.to_string(), "hello ");
}

#[test]
fn erase_until_eol_keeps_crlf() {
    let mut t = writable("ab cd\r\nx");
    t.erase_until_eol(&Cursor::new(2, 0));
    assert_eq!(t.to_string(), "ab\r\nx");
    t.erase_until_eol(&Cursor::new(0, 1));
    assert_eq!(t.to_string(), "ab\r\n");
}

#[test]
fn erase_until_eol_beyond_line_end_is_noop() {
    let mut t = writable("ab\ncd");
    t.erase_until_eol(&Cursor::new(3, 0));
    assert_eq!(t.to_string(), "ab\ncd");
}

#[test]
fn erase_until_eol_past_last_line_is_noop() {
    let mut t = writable("abc");
    t.erase_until_eol(&Cursor::new(0, 3));
    assert_eq!(t.to_string(), "abc");
}

#[test]
fn current_line_includes_terminator() {
    let t = writable("ab\ncd");
    assert_eq!(t.current_line(&Cursor::new(0, 0)), Some("ab\n".to_string()));
    assert_eq!(t.current_line(&Cursor::new(0, 1)), Some("cd".to_string()));
    assert_eq!(t.current_line(&Cursor::new(0, 2)), None);
}

#[test]
fn line_len_excludes_crlf() {
    let t = writable("ab\r\ncd\nef\r\n");
    assert_eq!(t.line_len(0), 2);
    assert_eq!(t.line_len(1), 2);
    assert_eq!(t.line_len(2), 2);
    assert_eq!(t.line_len(3), 0);
    assert_eq!(t.line_len(7), 0);
}

#[test]
fn line_len_stops_at_bare_carriage_return() {
    let t = writable("a\rb\nxyz");
    assert_eq!(t.line_len(0), 1);
    assert_eq!(t.line_len(1), 3);
}

#[test]
fn line_len_counts_chars() {
    let t = writable("h\u{e9}llo\n");
    assert_eq!(t.line_len(0), 5);
}

#[test]
fn len_lines_counts_trailing_empty_line() {
    assert_eq!(writable("a\n").len_lines(), 2);
    assert_eq!(writable("a\nb").len_lines(), 2);
    assert_eq!(writable("").len_lines(), 1);
}

#[test]
fn find_char_after_whitespace_moves_to_next_word() {
    let t = writable("hello world");
    assert_eq!(t.find_char_after_whitespace(&Cursor::new(0, 0)), (6, 0));
    assert_eq!(t.find_char_after_whitespace(&Cursor::new(6, 0)), (11, 0));
}

#[test]
fn find_char_after_whitespace_crosses_lines() {
    let t = writable("ab\n  cd");
    assert_eq!(t.find_char_after_whitespace(&Cursor::new(0, 0)), (2, 1));
}

#[test]
fn find_char_after_whitespace_outside_text_stays() {
    let t = writable("ab");
    assert_eq!(t.find_char_after_whitespace(&Cursor::new(7, 0)), (7, 0));
}

#[test]
fn find_char_after_separator_stops_after_punctuation() {
    let t = writable("foo.bar baz");
    assert_eq!(t.find_char_after_separator(&Cursor::new(0, 0)), (4, 0));
    assert_eq!(t.find_char_after_separator(&Cursor::new(4, 0)), (8, 0));
}

#[test]
fn find_char_before_whitespace_moves_to_previous_word() {
    let t = writable("foo bar");
    assert_eq!(t.find_char_before_whitespace(&Cursor::new(7, 0)), (0, 0));
    assert_eq!(t.find_char_before_whitespace(&Cursor::new(4, 0)), (0, 0));
    assert_eq!(t.find_char_before_whitespace(&Cursor::new(0, 0)), (0, 0));
}

#[test]
fn forward_then_backward_returns_to_word_start() {
    let t = writable("foo bar baz");
    let (col, row) = t.find_char_after_whitespace(&Cursor::new(4, 0));
    assert_eq!((col, row), (8, 0));
    assert_eq!(t.find_char_before_whitespace(&Cursor::new(col, row)), (4, 0));
}

#[test]
fn backward_crosses_lines_to_word_start() {
    let t = writable("one two\n  three");
    assert_eq!(t.find_char_before_whitespace(&Cursor::new(2, 1)), (4, 0));
}

#[test]
fn forward_then_backward_returns_to_one_letter_word() {
    let t = writable("foo b baz");
    let (col, row) = t.find_char_after_whitespace(&Cursor::new(4, 0));
    assert_eq!((col, row), (6, 0));
    assert_eq!(t.find_char_before_whitespace(&Cursor::new(col, row)), (4, 0));
}

#[test]
fn separators() {
    assert!(is_separator(' '));
    assert!(is_separator('.'));
    assert!(is_separator('/'));
    assert!(is_separator('\''));
    assert!(is_separator('"'));
    assert!(is_separator('\n'));
    assert!(!is_separator('a'));
    assert!(!is_separator('-'));
}
