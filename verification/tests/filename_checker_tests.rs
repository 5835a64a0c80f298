use antislop::config::{Pattern, PatternCategory, RegexPattern, Severity};
use antislop::filename_checker::{
    extract_duplicate_prefixes, extract_duplicate_suffixes, FileGroup, FilenameCheckConfig,
    FilenameChecker, NamingConvention,
};

fn naming(regex: &str) -> Pattern {
    Pattern {
        regex: RegexPattern::new(regex.to_string()).expect("valid regex").into_string(),
        severity: Severity::High,
        message: "test".to_string(),
        category: PatternCategory::NamingConvention,
        ast_query: None,
        languages: vec![],
    }
}

#[test]
fn test_naming_convention_detection() {
    assert_eq!(NamingConvention::detect("my_file"), NamingConvention::SnakeCase);
    assert_eq!(NamingConvention::detect("myFile"), NamingConvention::CamelCase);
    assert_eq!(NamingConvention::detect("MyFile"), NamingConvention::PascalCase);
    assert_eq!(NamingConvention::detect("my-file"), NamingConvention::KebabCase);
    assert_eq!(NamingConvention::detect("myfile"), NamingConvention::SnakeCase);
    assert_eq!(NamingConvention::detect("MYFILE"), NamingConvention::PascalCase);
}

#[test]
fn conventions_at_the_edges() {
    assert_eq!(NamingConvention::detect(""), NamingConvention::SnakeCase);
    assert_eq!(NamingConvention::detect("  spaced_out  "), NamingConvention::SnakeCase);
    assert_eq!(NamingConvention::detect("My_File"), NamingConvention::PascalCase);
    assert_eq!(NamingConvention::detect("my_File"), NamingConvention::CamelCase);
    assert_eq!(NamingConvention::detect("a.b"), NamingConvention::Unknown);
    assert_eq!(NamingConvention::detect("X"), NamingConvention::PascalCase);
    assert_eq!(NamingConvention::detect("file2"), NamingConvention::SnakeCase);
    assert_eq!(NamingConvention::detect("2_fast"), NamingConvention::SnakeCase);
    assert_eq!(NamingConvention::detect("_"), NamingConvention::SnakeCase);
    assert_eq!(NamingConvention::detect("Ärger"), NamingConvention::PascalCase);
}

#[test]
fn test_expected_convention_for_language() {
    assert_eq!(NamingConvention::expected_for_language("py"), Some(NamingConvention::SnakeCase));
    assert_eq!(NamingConvention::expected_for_language("rs"), Some(NamingConvention::SnakeCase));
    assert_eq!(NamingConvention::expected_for_language("go"), Some(NamingConvention::SnakeCase));
    assert_eq!(
        NamingConvention::expected_for_language("java"),
        Some(NamingConvention::PascalCase)
    );
    assert_eq!(NamingConvention::expected_for_language("cs"), Some(NamingConvention::PascalCase));
    assert_eq!(NamingConvention::expected_for_language("js"), None);
    assert_eq!(NamingConvention::expected_for_language("ts"), None);
}

#[test]
fn test_duplicate_detection() {
    let config = FilenameCheckConfig {
        check_duplicates: true,
        min_files_for_convention: 5,
        convention_threshold: 700,
    };

    let patterns = vec![naming("(?i)_real\\.(rs|py)"), naming("(?i)_new\\.(rs|py)")];

    let mut checker = FilenameChecker::with_config_and_patterns(config, &patterns);

    checker.add_file("/src/utils.rs");
    checker.add_file("/src/parser.rs");

    checker.add_file("/src/utils_real.rs");
    checker.add_file("/src/parser_new.rs");

    let findings = checker.check_duplicate_patterns();
    assert_eq!(findings.len(), 2);
}

#[test]
fn duplicate_findings_say_which_files() {
    let config = FilenameCheckConfig {
        check_duplicates: true,
        min_files_for_convention: 5,
        convention_threshold: 700,
    };
    let patterns = vec![naming("(?i)_real\\.(rs|py)"), naming("(?i)^old_.*\\.(rs|py)$")];
    let mut checker = FilenameChecker::with_config_and_patterns(config, &patterns);
    assert_eq!(checker.duplicate_suffixes, vec!["_real".to_string()]);
    checker.add_file("/lib/other_real.rs");
    checker.add_file("/src/utils.rs");
    checker.add_file("/src/utils_real.rs");
    checker.add_file("/src/utils_real.py");
    let findings = checker.check_duplicate_patterns();
    assert_eq!(findings.len(), 1);
    let f = &findings[0];
    assert_eq!(f.file, "/src/utils_real.rs");
    assert_eq!(f.line, 1);
    assert_eq!(f.column, 1);
    assert_eq!(f.severity, Severity::High);
    assert_eq!(f.category, PatternCategory::NamingConvention);
    assert_eq!(f.message, "Potential duplicate: 'utilsrs' exists alongside 'utils_realrs'");
    assert_eq!(f.match_text, "utils_real.rs");
    assert_eq!(f.pattern_regex, "duplicate_file");
}

#[test]
fn suffixes_and_prefixes_are_read_from_naming_rules() {
    let mut other = naming("(?i)_tmp\\.(rs|py)");
    other.category = PatternCategory::Stub;
    let patterns = vec![
        naming("(?i)_real\\.(rs|py)"),
        other,
        naming("(?i)^old_.*\\.(rs|py)$"),
        naming("plain"),
        naming("(?i)_final_v2\\.js"),
        naming("(?i)_final_copy\\.js"),
    ];
    assert_eq!(
        extract_duplicate_suffixes(&patterns),
        vec!["_real".to_string(), "_final_copy".to_string()]
    );
    assert_eq!(extract_duplicate_prefixes(&patterns), vec!["_old".to_string()]);
}

#[test]
fn test_convention_break_detection_with_threshold() {
    let config = FilenameCheckConfig {
        check_duplicates: false,
        min_files_for_convention: 5,
        convention_threshold: 600,
    };
    let mut checker = FilenameChecker::with_config(config);

    checker.add_file("/src/file_one.rs");
    checker.add_file("/src/file_two.rs");
    checker.add_file("/src/file_three.rs");
    checker.add_file("/src/file_four.rs");

    checker.add_file("/src/fileFive.rs");

    let findings = checker.check_convention_breaks();
    assert_eq!(findings.len(), 1);
    assert!(findings[0].file.contains("fileFive"));
}

#[test]
fn a_convention_break_is_described() {
    let config = FilenameCheckConfig {
        check_duplicates: false,
        min_files_for_convention: 5,
        convention_threshold: 600,
    };
    let mut checker = FilenameChecker::with_config(config);
    for name in ["file_one", "file_two", "file_three", "file_four", "FileFive"] {
        checker.add_file(&format!("/src/{}.rs", name));
    }
    let findings = checker.check();
    assert_eq!(findings.len(), 1);
    let f = &findings[0];
    assert_eq!(f.file, "/src/FileFive.rs");
    assert_eq!(f.match_text, "/src/FileFive.rs");
    assert_eq!(f.severity, Severity::Medium);
    assert_eq!(f.category, PatternCategory::NamingConvention);
    assert_eq!(f.pattern_regex, "naming_convention");
    assert_eq!(
        f.message,
        "naming inconsistency: 'filefive.rs' uses PascalCase but project uses snake_case"
    );
}

#[test]
fn test_no_convention_break_below_threshold() {
    let config = FilenameCheckConfig {
        check_duplicates: false,
        min_files_for_convention: 5,
        convention_threshold: 800,
    };
    let mut checker = FilenameChecker::with_config(config);

    checker.add_file("/src/file_one.rs");
    checker.add_file("/src/file_two.rs");
    checker.add_file("/src/file_three.rs");
    checker.add_file("/src/fileFour.rs");
    checker.add_file("/src/fileFive.rs");

    let findings = checker.check_convention_breaks();
    assert_eq!(findings.len(), 0);
}

#[test]
fn test_min_files_for_convention() {
    let config = FilenameCheckConfig {
        check_duplicates: false,
        min_files_for_convention: 10,
        convention_threshold: 600,
    };
    let mut checker = FilenameChecker::with_config(config);

    checker.add_file("/src/file_one.rs");
    checker.add_file("/src/file_two.rs");
    checker.add_file("/src/file_three.rs");
    checker.add_file("/src/file_four.rs");
    checker.add_file("/src/fileFive.rs");

    let findings = checker.check_convention_breaks();
    assert_eq!(findings.len(), 0);
}

#[test]
fn test_grouped_by_directory() {
    let mut checker = FilenameChecker::new();

    checker.add_file("/src/snake_file.rs");
    checker.add_file("/src/another_snake.rs");
    checker.add_file("/src/third_snake.rs");
    checker.add_file("/tests/PascalFile.rs");
    checker.add_file("/tests/AnotherPascal.rs");
    checker.add_file("/tests/ThirdPascal.rs");

    let findings = checker.check_convention_breaks();
    assert_eq!(findings.len(), 0);
}

#[test]
fn test_test_files_excluded_from_convention_check() {
    let mut checker = FilenameChecker::new();

    checker.add_file("/src/utils.rs");
    checker.add_file("/src/parser.rs");
    checker.add_file("/src/test_utils.rs");
    checker.add_file("/src/spec_helper.rs");
    checker.add_file("/src/mock_data.rs");

    let findings = checker.check_convention_breaks();
    assert_eq!(findings.len(), 0);
}

#[test]
fn test_full_check_with_defaults() {
    let config = FilenameCheckConfig {
        check_duplicates: true,
        min_files_for_convention: 5,
        convention_threshold: 700,
    };

    let patterns = vec![naming("(?i)_real\\.(rs|py)")];

    let mut checker = FilenameChecker::with_config_and_patterns(config, &patterns);

    checker.add_file("/src/module.rs");
    checker.add_file("/src/helper.rs");
    checker.add_file("/src/parser.rs");
    checker.add_file("/src/reader.rs");
    checker.add_file("/src/writer.rs");
    checker.add_file("/src/module.rs");
    checker.add_file("/src/module_real.rs");

    let findings = checker.check();
    assert!(findings.iter().any(|f| f.message.contains("duplicate")));
}

#[test]
fn files_are_grouped_and_tooling_is_noted() {
    let mut checker = FilenameChecker::default();
    checker.add_file("/a/x.rs");
    checker.add_file("/b/y.rs");
    checker.add_file("/a/z.rs");
    checker.add_file("/a/rustfmt.toml");
    checker.add_file("/b/rustfmt.toml");
    checker.add_file("/a/README");
    checker.add_file("/a/test_x.rs");
    assert_eq!(checker.all_files.len(), 7);
    assert_eq!(checker.tooling_configs, vec!["rustfmt.toml".to_string()]);
    let groups: Vec<(String, String, Vec<String>)> = checker
        .grouped_files
        .iter()
        .map(|g| (g.group.extension.clone(), g.group.directory.clone(), g.files.clone()))
        .collect();
    assert_eq!(
        groups,
        vec![
            (".rs".to_string(), "/a".to_string(), vec!["/a/x.rs".to_string(), "/a/z.rs".to_string()]),
            (".rs".to_string(), "/b".to_string(), vec!["/b/y.rs".to_string()]),
            (".toml".to_string(), "/a".to_string(), vec!["/a/rustfmt.toml".to_string()]),
            (".toml".to_string(), "/b".to_string(), vec!["/b/rustfmt.toml".to_string()]),
        ]
    );
}

#[test]
fn group_of_a_path() {
    let g = FileGroup::from_path("/src/utils.rs").unwrap();
    assert_eq!(g.extension, ".rs");
    assert_eq!(g.directory, "/src");
    let g = FileGroup::from_path("utils.rs").unwrap();
    assert_eq!(g.directory, "");
    let g = FileGroup::from_path("/utils.rs").unwrap();
    assert_eq!(g.directory, "/");
    assert!(FileGroup::from_path("/src/Makefile").is_none());
    assert!(FileGroup::from_path("/src/my_spec.rs").is_none());
    let g = FileGroup::from_path("/src//utils.rs/").unwrap();
    assert_eq!(g.extension, ".rs");
    assert_eq!(g.directory, "/src");
    let g = FileGroup::from_path("./lib/./utils.rs/.").unwrap();
    assert_eq!(g.directory, "./lib");
    assert!(FileGroup::from_path("/src/utils.rs/..").is_none());
    assert!(FileGroup::from_path("..").is_none());
}
