use antislop::detector::regex_fallback::block_comment_content;
use antislop::detector::{Comment, RegexExtractor};

#[test]
fn test_extract_line_comments() {
    let extractor = RegexExtractor::new();
    let code = r#"
fn main() {
    // TODO: implement this
    let x = 42;
    # Another comment
}
"#;
    let comments = extractor.extract(code);
    assert_eq!(comments.len(), 2);
    assert!(comments[0].content.contains("TODO"));
    assert!(comments[1].content.contains("Another"));
}

#[test]
fn test_extract_python_comments() {
    let extractor = RegexExtractor::new();
    let code = r#"
def foo():
    # TODO: implement
    pass
"#;
    let comments = extractor.extract(code);
    assert_eq!(comments.len(), 1);
    assert!(comments[0].content.contains("TODO"));
}

#[test]
fn test_extract_shell_comments() {
    let extractor = RegexExtractor::new();
    let code = "#!/bin/bash\n# TODO: fix this\necho 'hello'";
    let comments = extractor.extract(code);
    assert!(comments.len() >= 1);
    assert!(comments.iter().any(|c| c.content.contains("TODO")));
}

#[test]
fn test_extract_single_line_comments() {
    let extractor = RegexExtractor::new();
    let code = r#"
fn main() {
    // TODO: implement this
    let x = 42;
}
"#;
    let comments = extractor.extract(code);
    assert_eq!(comments.len(), 1);
    assert_eq!(comments[0].line, 3);
    assert!(comments[0].content.contains("TODO"));
}

#[test]
fn a_line_with_two_marker_families_gives_two_comments() {
    let extractor = RegexExtractor::new();
    let comments = extractor.extract("x = 1 // first # second\n");
    assert_eq!(
        comments,
        vec![
            Comment { line: 1, column: 7, content: "first # second".to_string() },
            Comment { line: 1, column: 16, content: "second".to_string() },
        ]
    );
}

#[test]
fn markers_and_white_space_are_trimmed() {
    let extractor = RegexExtractor::new();
    let comments = extractor.extract("  ///   spaced out  \r\n-- sql\n% tex\n; lisp\n;\n");
    assert_eq!(
        comments,
        vec![
            Comment { line: 1, column: 3, content: "spaced out".to_string() },
            Comment { line: 2, column: 1, content: "sql".to_string() },
            Comment { line: 3, column: 1, content: "tex".to_string() },
            Comment { line: 4, column: 1, content: "lisp".to_string() },
        ]
    );
}

#[test]
fn block_comments_join_their_lines() {
    let extractor = RegexExtractor::new();
    let comments = extractor.extract("code\n/* one\ntwo */\nmore\n<!-- a\nb\nc -->\n");
    assert_eq!(
        comments,
        vec![
            Comment { line: 5, column: 3, content: "a".to_string() },
            Comment { line: 7, column: 3, content: ">".to_string() },
            Comment { line: 2, column: 1, content: "one\ntwo".to_string() },
            Comment { line: 5, column: 1, content: "a\nb\nc".to_string() },
        ]
    );
}

#[test]
fn a_block_comment_loses_its_delimiters() {
    let extractor = RegexExtractor::new();
    let comments = extractor.extract("/*\nTODO: x\n*/\n");
    assert_eq!(comments, vec![Comment { line: 1, column: 1, content: "TODO: x".to_string() }]);
}

#[test]
fn block_content_drops_one_delimiter_at_each_end() {
    assert_eq!(block_comment_content("/* a */"), "a");
    assert_eq!(block_comment_content("  /*\n a\n b\n*/  "), "a\n b");
    assert_eq!(block_comment_content("\"\"\"doc\"\"\""), "doc");
    assert_eq!(block_comment_content("'''doc'''"), "doc");
    assert_eq!(block_comment_content("<!-- note -->"), "note");
    assert_eq!(block_comment_content("/* /* a */ */"), "/* a */");
    assert_eq!(block_comment_content("/**/"), "");
    assert_eq!(block_comment_content("plain"), "plain");
    assert_eq!(block_comment_content("x = /* a */"), "x = /* a");
}

#[test]
fn a_block_that_never_closes_gives_no_comment() {
    let extractor = RegexExtractor::new();
    let comments = extractor.extract("/* open\nstill open\n");
    assert_eq!(comments, vec![]);
}

#[test]
fn empty_text_has_no_comments() {
    let extractor = RegexExtractor::default();
    assert_eq!(extractor.extract(""), vec![]);
    assert_eq!(extractor.extract("\n\n"), vec![]);
}
