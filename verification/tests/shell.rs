use rhost::shell::{incomplete_utf8_suffix, is_valid_env_key, path_quote, quote, strip_ansi, truncate_on_char_boundary};

#[test]
fn quoting_keeps_one_literal() {
    assert_eq!(quote(""), "''");
    assert_eq!(quote("plain"), "'plain'");
    assert_eq!(quote("it's"), r"'it'\''s'");
    assert_eq!(quote("a $(b) `c` ; d"), "'a $(b) `c` ; d'");
    assert_eq!(path_quote("~"), "\"$HOME\"");
    assert_eq!(path_quote("~/a b"), "\"$HOME\"/'a b'");
    assert_eq!(path_quote("/tmp/x"), "'/tmp/x'");
}

#[test]
fn env_keys_and_utf8_boundaries() {
    assert!(is_valid_env_key("_A9"));
    assert!(!is_valid_env_key("9A"));
    assert!(!is_valid_env_key("A B"));
    assert!(!is_valid_env_key("A=1"));
    assert_eq!(incomplete_utf8_suffix(b"ab\x00"), 0);
    assert_eq!(incomplete_utf8_suffix("é".as_bytes()), 0);
    assert_eq!(incomplete_utf8_suffix(&"é".as_bytes()[..1]), 1);
    assert_eq!(truncate_on_char_boundary("é".as_bytes().to_vec(), 1), Vec::<u8>::new());
    assert_eq!(truncate_on_char_boundary(b"abc".to_vec(), 0), Vec::<u8>::new());
}

#[test]
fn terminal_sequences_are_stripped_and_line_endings_normalised() {
    assert_eq!(strip_ansi("\x1b]133;C\x07hello\r\n"), "hello\n");
    assert_eq!(strip_ansi("\x1b]133;D;0\x07"), "");
    assert_eq!(strip_ansi("\x1b]0;title\x1b\\after"), "after");
    assert_eq!(strip_ansi("\x1b]8;;https://example.com\x1b\\link\x1b]8;;\x1b\\"), "link");
    assert_eq!(strip_ansi("\x1b[?2004h$ ls\x1b[?2004l\r\n"), "$ ls\n");
    assert_eq!(strip_ansi("plain text\n"), "plain text\n");
    assert_eq!(strip_ansi("a\rb\n"), "ab\n");
    assert_eq!(strip_ansi("x\x1b]13"), "x\x1b]13");
    assert_eq!(strip_ansi("x\x1b["), "x\x1b[");
}

#[test]
fn quoting_a_path_without_home_is_plain_quoting() {
    assert_eq!(path_quote("a'b"), quote("a'b"));
    assert_eq!(path_quote("~user"), "'~user'");
}

#[test]
fn truncation_keeps_whole_characters_below_the_limit() {
    assert_eq!(truncate_on_char_boundary(b"abcdef".to_vec(), 4), b"abcd".to_vec());
    assert_eq!(truncate_on_char_boundary("aé".as_bytes().to_vec(), 2), b"a".to_vec());
    assert_eq!(truncate_on_char_boundary(b"ab".to_vec(), 9), b"ab".to_vec());
    assert_eq!(incomplete_utf8_suffix(&"€".as_bytes()[..2]), 2);
    assert!(!is_valid_env_key(""));
}
