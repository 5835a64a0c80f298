use antislop::text::{
    byte_slice, contains_string, decimal, join_lines, join_path, replace_all, split_lines,
    str_contains, str_eq, to_chars, trim, trim_start,
};

fn strings(items: &[&str]) -> Vec<String> {
    items.iter().map(|s| s.to_string()).collect()
}

#[test]
fn lines_end_at_line_feeds() {
    assert_eq!(split_lines(""), strings(&[]));
    assert_eq!(split_lines("a"), strings(&["a"]));
    assert_eq!(split_lines("a\n"), strings(&["a"]));
    assert_eq!(split_lines("a\nb"), strings(&["a", "b"]));
    assert_eq!(split_lines("a\r\nb\r\n"), strings(&["a", "b"]));
    assert_eq!(split_lines("\n\n"), strings(&["", ""]));
    assert_eq!(split_lines("a\r"), strings(&["a\r"]));
    assert_eq!(split_lines("a\r\r\nb"), strings(&["a\r", "b"]));
    assert_eq!(split_lines("\r\n"), strings(&[""]));
}

#[test]
fn lines_agree_with_the_standard_library() {
    for text in ["", "x", "x\n", "\nx", "a\r\nb\rc\n\r\n", "\r", "é\n\u{2028}z", "a\n\n\nb\n"] {
        let expected: Vec<String> = text.lines().map(|s| s.to_string()).collect();
        assert_eq!(split_lines(text), expected, "{:?}", text);
    }
}

#[test]
fn trimming_removes_unicode_white_space() {
    assert_eq!(trim("  a b \t\n"), "a b");
    assert_eq!(trim("\u{a0}\u{3000}x\u{2003}\u{85}"), "x");
    assert_eq!(trim("   "), "");
    assert_eq!(trim(""), "");
    assert_eq!(trim("\u{200b}x"), "\u{200b}x");
    assert_eq!(trim_start("  a  "), "a  ");
    assert_eq!(trim_start("\u{2028}\u{1680}"), "");
}

#[test]
fn trimming_agrees_with_the_standard_library() {
    for code in 0u32..0x3100 {
        if let Some(c) = char::from_u32(code) {
            let text = format!("{}x{}", c, c);
            assert_eq!(trim(&text), text.trim(), "U+{:04X}", code);
        }
    }
}

#[test]
fn numbers_in_decimal() {
    assert_eq!(decimal(0), "0");
    assert_eq!(decimal(7), "7");
    assert_eq!(decimal(10), "10");
    assert_eq!(decimal(1234567890), "1234567890");
    assert_eq!(decimal(usize::MAX), usize::MAX.to_string());
}

#[test]
fn replacing_reads_from_the_left() {
    assert_eq!(replace_all("aaa", "aa", "b"), "ba");
    assert_eq!(replace_all("snakecase and camelcase", "snakecase", "snake_case"), "snake_case and camelcase");
    assert_eq!(replace_all("abc", "", "x"), "abc");
    assert_eq!(replace_all("", "a", "x"), "");
    assert_eq!(replace_all("(?i)old", "(?i)", ""), "old");
    assert_eq!(replace_all("ééé", "é", "e"), "eee");
}

#[test]
fn paths_are_joined_with_one_slash() {
    assert_eq!(join_path("dir", "f.toml"), "dir/f.toml");
    assert_eq!(join_path("dir/", "f.toml"), "dir/f.toml");
    assert_eq!(join_path("", "f.toml"), "f.toml");
    assert_eq!(join_path("dir", "/abs.toml"), "/abs.toml");
    assert_eq!(join_path("dir", ""), "dir/");
}

#[test]
fn bytes_between_offsets() {
    assert_eq!(byte_slice("héllo", 0, 1), "h");
    assert_eq!(byte_slice("héllo", 1, 3), "é");
    assert_eq!(byte_slice("héllo", 3, 6), "llo");
    assert_eq!(byte_slice("héllo", 1, 2), "");
    assert_eq!(byte_slice("héllo", 2, 3), "");
    assert_eq!(byte_slice("héllo", 4, 3), "");
    assert_eq!(byte_slice("héllo", 0, 7), "");
    assert_eq!(byte_slice("héllo", 6, 6), "");
    assert_eq!(byte_slice("", 0, 0), "");
}

#[test]
fn texts_are_compared_and_searched() {
    assert!(str_eq("a", "a"));
    assert!(!str_eq("a", "ab"));
    assert!(str_eq("", ""));
    assert!(str_contains("hello", "ell"));
    assert!(str_contains("hello", ""));
    assert!(str_contains("", ""));
    assert!(!str_contains("hello", "elo"));
    assert!(!str_contains("", "a"));
    assert!(str_contains("hello", "hello"));
    assert!(!str_contains("hello", "hello!"));
    assert!(contains_string(&strings(&["a", "b"]), "b"));
    assert!(!contains_string(&strings(&["a", "b"]), "c"));
    assert_eq!(to_chars("hé"), vec!['h', 'é']);
}

#[test]
fn lines_are_joined_with_line_feeds() {
    let lines = strings(&["a", "b", "c", "d"]);
    assert_eq!(join_lines(&lines, 1, 2), "b\nc");
    assert_eq!(join_lines(&lines, 0, 3), "a\nb\nc\nd");
    assert_eq!(join_lines(&lines, 2, 2), "c");
}
