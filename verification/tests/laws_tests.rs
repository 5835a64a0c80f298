use antislop::config::{Config, Pattern, PatternCategory, Severity};
use antislop::detector::{get_extractor, Language, RegexExtractor, Scanner};

fn texts() -> Vec<(&'static str, String)> {
    vec![
        ("a.py", "# TODO: fix this\n".to_string()),
        ("a.py", "# TODO: a\n# for now b\n".to_string()),
        ("b.rs", "fn f() {\n    // FIXME: later, hopefully\n    todo!()\n}\n".to_string()),
        ("c.ts", "// XXX: temporary hack\nconst x: number = 1; /* should work */\n".to_string()),
        ("d.tsx", "const a = <b>{/* TODO: jsx */}</b>;\n".to_string()),
        ("e.jsx", "// quick implementation\nexport default () => <p/>;\n".to_string()),
        ("f.txt", "-- not yet implemented ; TODO: x % hopefully\n<!-- a\nb -->\n".to_string()),
        ("g", "\u{feff}# TODO: \u{1F980}\r\n\"\"\"\nfor now\n\"\"\"\n".to_string()),
        ("h.py", "def f():\n    raise NotImplementedError  # not implemented\n".to_string()),
        ("i.rs", String::new()),
        ("j.js", "\0\u{1}\u{7f}//\n/*".to_string()),
    ]
}

#[test]
fn scanning_twice_gives_the_same_result() {
    let scanner = Scanner::new(Config::default().patterns).unwrap();
    let again = Scanner::new(Config::default().patterns).unwrap();
    for (path, text) in texts() {
        let a = scanner.scan_file(path, &text);
        let b = scanner.scan_file(path, &text);
        let c = again.scan_file(path, &text);
        assert_eq!(format!("{:?}", a), format!("{:?}", b), "{}", path);
        assert_eq!(format!("{:?}", a), format!("{:?}", c), "{}", path);
    }
}

#[test]
fn the_score_is_the_sum_of_the_weights() {
    let scanner = Scanner::new(Config::default().patterns).unwrap();
    let mut total = 0;
    for (path, text) in texts() {
        let r = scanner.scan_file(path, &text);
        let sum: u32 = r.findings.iter().map(|f| f.severity.score()).sum();
        assert_eq!(r.score, sum, "{}", path);
        assert!(r.findings.iter().all(|f| f.file == path));
        total += r.findings.len();
    }
    assert!(total >= 12);
}

#[test]
fn one_rule_one_comment_scores_five() {
    let rules = vec![Pattern::new(
        "(?i)TODO:".to_string(),
        Severity::Medium,
        "m".to_string(),
        PatternCategory::Placeholder,
    )];
    let r = Scanner::new(rules).unwrap().scan_file("x.py", "# TODO: fix this\n");
    assert_eq!(r.findings.len(), 1);
    assert_eq!(r.findings[0].line, 1);
    assert_eq!(r.findings[0].category, PatternCategory::Placeholder);
    assert_eq!(r.score, 5);
}

#[test]
fn two_rules_two_comments_score_six() {
    let rules = vec![
        Pattern::new("TODO:".to_string(), Severity::Medium, "m".to_string(), PatternCategory::Placeholder),
        Pattern::new("for now".to_string(), Severity::Low, "m".to_string(), PatternCategory::Deferral),
    ];
    let r = Scanner::new(rules).unwrap().scan_file("x.py", "# TODO: a\n# for now b\n");
    assert_eq!(r.findings.len(), 2);
    assert_eq!(r.findings[0].category, PatternCategory::Placeholder);
    assert_eq!(r.findings[0].line, 1);
    assert_eq!(r.findings[1].category, PatternCategory::Deferral);
    assert_eq!(r.findings[1].line, 2);
    assert_eq!(r.score, 6);
}

#[test]
fn the_empty_text_has_no_findings_under_rules_that_need_text() {
    for rules in [vec![], Config::default().patterns] {
        let scanner = Scanner::new(rules).unwrap();
        for path in ["a.py", "a.rs", "a.js", "a.ts", "a.txt", "a"] {
            let r = scanner.scan_file(path, "");
            assert!(r.findings.is_empty());
            assert_eq!(r.score, 0);
        }
    }
}

#[test]
fn one_bad_regex_makes_no_scanner() {
    let mut rules = Config::default().patterns;
    rules[2].regex = "(?P<open".to_string();
    assert!(Scanner::new(rules).is_err());
}

#[test]
fn structural_findings_pass_the_regex_of_their_rule() {
    let rules = vec![Pattern {
        regex: "^unimplemented".to_string(),
        severity: Severity::Critical,
        message: "m".to_string(),
        category: PatternCategory::Stub,
        ast_query: Some("(macro_invocation) @m".to_string()),
        languages: vec!["Rust".to_string()],
    }];
    let scanner = Scanner::new(rules).unwrap();
    let code = "fn a() { todo!() }\nfn b() { unimplemented!() }\nfn c() { vec![1] }\n";
    let r = scanner.scan_file("lib.rs", code);
    assert_eq!(r.findings.len(), 1);
    assert_eq!(r.findings[0].match_text, "unimplemented!()");
    assert_eq!(r.findings[0].line, 2);
    assert_eq!(r.findings[0].column, 10);
    let re = regex::Regex::new(&r.findings[0].pattern_regex).unwrap();
    assert!(re.is_match(&r.findings[0].match_text));
}

#[test]
fn structural_rules_are_not_matched_against_comments() {
    let rules = vec![Pattern {
        regex: "todo".to_string(),
        severity: Severity::Critical,
        message: "m".to_string(),
        category: PatternCategory::Stub,
        ast_query: Some("(macro_invocation) @m".to_string()),
        languages: vec!["Rust".to_string()],
    }];
    let scanner = Scanner::new(rules).unwrap();
    assert!(scanner.scan_file("a.rs", "// todo\n").findings.is_empty());
    assert!(scanner.scan_file("a.txt", "// todo\n").findings.is_empty());
    assert_eq!(scanner.scan_file("a.rs", "fn f() { todo!() }").findings.len(), 1);
    assert!(scanner.scan_file("a.py", "todo!()").findings.is_empty());
}

#[test]
fn structural_findings_follow_the_comment_findings() {
    let mut rules = vec![Pattern {
        regex: "todo!".to_string(),
        severity: Severity::Critical,
        message: "macro".to_string(),
        category: PatternCategory::Stub,
        ast_query: Some("(macro_invocation) @m".to_string()),
        languages: vec!["Rust".to_string()],
    }];
    rules.push(Pattern::new(
        "later".to_string(),
        Severity::Low,
        "comment".to_string(),
        PatternCategory::Deferral,
    ));
    let scanner = Scanner::new(rules).unwrap();
    let r = scanner.scan_file("a.rs", "fn f() { todo!() }\n// later\nfn g() { todo!() }\n");
    let messages: Vec<&str> = r.findings.iter().map(|f| f.message.as_str()).collect();
    assert_eq!(messages, vec!["comment", "macro", "macro"]);
    assert_eq!(r.score, 101);
}

#[test]
fn both_extractors_find_the_same_text_in_plain_line_comments() {
    let code = "fn main() {\n    // TODO: one\n    let x = 1 // for now\n}\n";
    let fallback = RegexExtractor::new().extract(code);
    let grammar = get_extractor(Language::Rust).unwrap().extract(code);
    let a: Vec<(usize, &str)> = fallback.iter().map(|c| (c.line, c.content.as_str())).collect();
    let b: Vec<(usize, &str)> = grammar.iter().map(|c| (c.line, c.content.as_str())).collect();
    assert_eq!(a, b);
    assert_eq!(a, vec![(2, "TODO: one"), (3, "for now")]);
    let rules = vec![Pattern::new(
        "(?i)todo|for now".to_string(),
        Severity::Low,
        "m".to_string(),
        PatternCategory::Deferral,
    )];
    let scanner = Scanner::new(rules).unwrap();
    let by_grammar = scanner.match_comments("f.rs", &grammar);
    let by_fallback = scanner.match_comments("f.rs", &fallback);
    let seen = |r: &antislop::detector::FileScanResult| -> Vec<(usize, String)> {
        r.findings.iter().map(|f| (f.line, f.match_text.clone())).collect()
    };
    assert_eq!(seen(&by_grammar), seen(&by_fallback));
    assert_eq!(by_grammar.score, by_fallback.score);
}

#[test]
fn the_fallback_sees_a_comment_for_every_marker_family() {
    let code = "let x = 1; // for now\n";
    let fallback = RegexExtractor::new().extract(code);
    let grammar = get_extractor(Language::Rust).unwrap().extract(code);
    let a: Vec<&str> = fallback.iter().map(|c| c.content.as_str()).collect();
    let b: Vec<&str> = grammar.iter().map(|c| c.content.as_str()).collect();
    assert_eq!(a, vec!["for now", "// for now"]);
    assert_eq!(b, vec!["for now"]);
}

#[test]
fn every_grammar_parses_and_finds_comments() {
    for (lang, code) in [
        (Language::Python, "# one\nx = 1\n"),
        (Language::JavaScript, "// one\nlet x = 1;\n"),
        (Language::Jsx, "// one\nconst a = <b/>;\n"),
        (Language::TypeScript, "// one\nlet x: number = 1;\n"),
        (Language::Tsx, "// one\nlet x: number = 1;\n"),
        (Language::Rust, "// one\nfn f() {}\n"),
    ] {
        let comments = get_extractor(lang).unwrap().extract(code);
        assert_eq!(comments.len(), 1, "{:?}", lang);
        assert_eq!(comments[0].line, 1);
        assert_eq!(comments[0].column, 1);
        assert!(comments[0].content.contains("one"));
    }
}

#[test]
fn no_text_makes_a_scan_fail() {
    let scanner = Scanner::new(Config::default().patterns).unwrap();
    let mut text = String::new();
    for code in (0u32..0x500).chain([0x2028, 0x2029, 0xfeff, 0xfffd, 0x1f980, 0x10ffff]) {
        if let Some(c) = char::from_u32(code) {
            text.push(c);
            if code % 7 == 0 {
                text.push_str("//#--%;/*\"\"\"'''<!--");
            }
            if code % 11 == 0 {
                text.push('\n');
            }
        }
    }
    for path in ["t.py", "t.js", "t.jsx", "t.ts", "t.tsx", "t.rs", "t.go", "t.txt", "t", ""] {
        let r = scanner.scan_file(path, &text);
        let sum: u32 = r.findings.iter().map(|f| f.severity.score()).sum();
        assert_eq!(r.score, sum);
    }
}

#[test]
fn a_structural_rule_for_rust_finds_the_macro_in_rust_and_nothing_in_python() {
    let rules = vec![Pattern {
        regex: "todo!".to_string(),
        severity: Severity::Critical,
        message: "todo!() macro stub detected".to_string(),
        category: PatternCategory::Stub,
        ast_query: Some("(macro_invocation) @m".to_string()),
        languages: vec!["Rust".to_string()],
    }];
    let code = "fn process_data() -> u32 {\n    todo!()\n}\n";
    let scanner = Scanner::new(rules).unwrap();
    let result = scanner.scan_file("stub.rs", code);
    assert_eq!(result.findings.len(), 1);
    assert_eq!(result.findings[0].line, 2);
    assert_eq!(result.findings[0].column, 5);
    assert_eq!(result.findings[0].match_text, "todo!()");
    assert_eq!(result.findings[0].file, "stub.rs");
    assert_eq!(result.findings[0].category, PatternCategory::Stub);
    assert_eq!(result.score, 50);
    let other = scanner.scan_file("stub.py", code);
    assert_eq!(other.findings.len(), 0);
    assert_eq!(other.score, 0);
}

fn get_test_scanner() -> Scanner {
    let patterns = vec![Pattern {
        regex: "TODO|FIXME|HACK".to_string(),
        severity: Severity::High,
        message: "Slop".to_string(),
        category: PatternCategory::Placeholder,
        ast_query: None,
        languages: vec![],
    }];
    Scanner::new(patterns).unwrap()
}

#[test]
fn test_scanner_finds_injected_slop_with_fallback() {
    let scanner = get_test_scanner();
    for prefix in ["", "a", "some words 123", "   "] {
        for slop in ["TODO", "FIXME", "HACK"] {
            for suffix in ["", "z", "9 more words", " "] {
                let code = format!("{} {} {}", prefix, slop, suffix);
                let comment_code = format!("# {}", code);
                let result = scanner.scan_file("test.txt", &comment_code);
                assert!(!result.findings.is_empty(), "{:?}", comment_code);
            }
        }
    }
}

#[test]
fn test_scan_result_score_matches_findings() {
    let scanner = get_test_scanner();
    for count in 0usize..10 {
        let mut code = String::new();
        for i in 0..count {
            code.push_str(&format!("# TODO item {}\n", i));
        }

        let result = scanner.scan_file("test.txt", &code);

        assert_eq!(result.findings.len(), count);
        assert_eq!(result.score, count as u32 * 15);
    }
}

#[test]
fn test_finding_positions_are_valid() {
    let scanner = get_test_scanner();
    for line_count in 1usize..50 {
        let mut code = String::new();
        for i in 1..=line_count {
            if i == line_count {
                code.push_str("# TODO here\n");
            } else {
                code.push_str("normal code line\n");
            }
        }

        let result = scanner.scan_file("test.txt", &code);

        assert_eq!(result.findings.len(), 1);
        let finding = &result.findings[0];
        assert_eq!(finding.line, line_count);
        assert!(finding.column >= 1);
        assert!(finding.column <= 20);
    }
}

#[test]
fn test_multiple_slop_patterns_in_same_line() {
    let scanner = get_test_scanner();
    for slop1 in ["TODO", "FIXME", "HACK"] {
        for slop2 in ["TODO", "FIXME", "HACK"] {
            let code = format!("# {} and {}", slop1, slop2);

            let result = scanner.scan_file("test.txt", &code);

            assert!(!result.findings.is_empty());
            assert!(result.score >= 15);
        }
    }
}

#[test]
fn a_scanner_warns_of_the_queries_that_do_not_compile() {
    let mut rules = Config::default().patterns;
    rules.push(Pattern {
        regex: "todo!".to_string(),
        severity: Severity::High,
        message: "broken".to_string(),
        category: PatternCategory::Stub,
        ast_query: Some("(no_such_node_kind) @x".to_string()),
        languages: vec!["Rust".to_string()],
    });
    let scanner = Scanner::new(rules).unwrap();
    let warnings = scanner.query_warnings("src/a.rs");
    assert_eq!(warnings.len(), 1);
    assert!(warnings[0].starts_with("Invalid tree-sitter query '(no_such_node_kind) @x': "));
    assert_eq!(scanner.query_warnings("a.py"), Vec::<String>::new());
    assert_eq!(scanner.query_warnings("a.go"), Vec::<String>::new());
    assert_eq!(scanner.query_warnings("a"), Vec::<String>::new());
    let plain = Scanner::new(Config::default().patterns).unwrap();
    assert_eq!(plain.query_warnings("src/a.rs"), Vec::<String>::new());
}

#[test]
fn a_scanner_holds_a_grammar_for_each_language_that_has_one() {
    let scanner = Scanner::new(vec![]).unwrap();
    for lang in [
        Language::Python,
        Language::JavaScript,
        Language::Jsx,
        Language::TypeScript,
        Language::Tsx,
        Language::Rust,
    ] {
        assert_eq!(scanner.extractor(lang).map(|x| x.language), Some(lang));
    }
    for lang in [Language::Go, Language::Java, Language::Unknown] {
        assert!(scanner.extractor(lang).is_none());
    }
}

#[test]
fn an_anchored_rule_finds_a_marked_comment_with_and_without_a_grammar() {
    let rules = vec![Pattern {
        regex: "^TODO".to_string(),
        severity: Severity::Medium,
        message: "m".to_string(),
        category: PatternCategory::Placeholder,
        ast_query: None,
        languages: vec![],
    }];
    let scanner = Scanner::new(rules).unwrap();
    for path in ["a.py", "a.rb"] {
        let r = scanner.scan_file(path, "# TODO: x\n");
        assert_eq!(r.findings.len(), 1);
        assert_eq!((r.findings[0].line, r.findings[0].column), (1, 1));
    }
    for path in ["a.rs", "a.js", "a.ts", "a.go"] {
        let r = scanner.scan_file(path, "// TODO: x\n");
        assert_eq!(r.findings.len(), 1);
        assert_eq!((r.findings[0].line, r.findings[0].column), (1, 1));
    }
}

#[test]
fn a_rule_that_matches_the_empty_text_finds_the_root_of_an_empty_file() {
    let rules = vec![Pattern {
        regex: "^$".to_string(),
        severity: Severity::Low,
        message: "empty".to_string(),
        category: PatternCategory::Stub,
        ast_query: Some("(source_file) @all".to_string()),
        languages: vec!["Rust".to_string()],
    }];
    let scanner = Scanner::new(rules).unwrap();
    let r = scanner.scan_file("a.rs", "");
    assert_eq!(r.findings.len(), 1);
    assert_eq!((r.findings[0].line, r.findings[0].column), (1, 1));
    assert_eq!(r.findings[0].match_text, "");
    assert_eq!(r.score, 1);
    assert!(scanner.scan_file("a.py", "").findings.is_empty());
    assert!(scanner.scan_file("a.go", "").findings.is_empty());
}
