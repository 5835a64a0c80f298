use antislop::hygiene::{
    detect_tools_in_content, extension_marker, first_marker, found_pipelines, github_pipeline,
    insert_name, is_read_for_tools, is_shell_script, is_workflow_file, makefile_names,
    missing_tools, note_configured, pipeline_files, precommit_choice, pyproject_tools, recommend,
    CIPipeline, DetectionPattern, LanguageDef, Tool, ToolDef,
};

#[test]
fn test_tool_creation() {
    let tool = Tool::new("test", "install cmd", "description");
    assert_eq!(tool.name, "test");
    assert!(!tool.found);
}

#[test]
fn tool_from_definition() {
    let def = ToolDef {
        name: "clippy".to_string(),
        install: "rustup component add clippy".to_string(),
        description: "Lints".to_string(),
        config_files: vec!["clippy.toml".to_string()],
    };
    let tool = Tool::from_def(&def);
    assert_eq!(tool.name, "clippy");
    assert_eq!(tool.install_cmd, "rustup component add clippy");
    assert_eq!(tool.description, "Lints");
    assert!(!tool.found);
}

#[test]
fn pyproject_sections_name_tools() {
    let (linters, formatters) =
        pyproject_tools("[tool.black]\nline-length = 88\n[tool.mypy]\n[tool.ruff]\n");
    assert_eq!(linters, vec!["ruff".to_string(), "mypy".to_string()]);
    assert_eq!(formatters, vec!["black".to_string()]);
    let (linters, formatters) = pyproject_tools("[project]\nname = \"x\"\n");
    assert!(linters.is_empty());
    assert!(formatters.is_empty());
}

#[test]
fn first_hook_configuration_wins() {
    assert_eq!(precommit_choice(true, true, true), Some(".pre-commit-config.yaml".to_string()));
    assert_eq!(precommit_choice(false, true, true), Some(".husky/".to_string()));
    assert_eq!(precommit_choice(false, false, true), Some("lefthook.yml".to_string()));
    assert_eq!(precommit_choice(false, false, false), None);
}

fn def(name: &str) -> ToolDef {
    ToolDef {
        name: name.to_string(),
        install: format!("install {}", name),
        description: format!("{} does things", name),
        config_files: vec![],
    }
}

fn language(name: &str, linters: &[&str], formatters: &[&str]) -> LanguageDef {
    LanguageDef {
        name: name.to_string(),
        marker_files: vec![],
        detect_extensions: vec![],
        linters: linters.iter().map(|n| def(n)).collect(),
        formatters: formatters.iter().map(|n| def(n)).collect(),
    }
}

fn strings(items: &[&str]) -> Vec<String> {
    items.iter().map(|s| s.to_string()).collect()
}

#[test]
fn tools_are_detected_in_text_without_regard_to_case() {
    let patterns = vec![
        ("Cargo Clippy".to_string(), DetectionPattern { tool_name: "clippy".to_string(), is_linter: true }),
        ("cargo fmt".to_string(), DetectionPattern { tool_name: "rustfmt".to_string(), is_linter: false }),
        ("clippy".to_string(), DetectionPattern { tool_name: "clippy".to_string(), is_linter: true }),
        ("eslint".to_string(), DetectionPattern { tool_name: "eslint".to_string(), is_linter: true }),
    ];
    let mut linters = strings(&["ruff"]);
    let mut formatters = Vec::new();
    detect_tools_in_content(
        "run: CARGO CLIPPY -- -D warnings\nrun: cargo FMT --check\n",
        &patterns,
        &mut linters,
        &mut formatters,
    );
    assert_eq!(linters, strings(&["ruff", "clippy"]));
    assert_eq!(formatters, strings(&["rustfmt"]));
}

#[test]
fn names_are_kept_once() {
    let mut names = Vec::new();
    insert_name(&mut names, "a");
    insert_name(&mut names, "b");
    insert_name(&mut names, "a");
    assert_eq!(names, strings(&["a", "b"]));
}

#[test]
fn missing_tools_are_those_not_found() {
    let rust = language("Rust", &["clippy", "audit"], &["rustfmt"]);
    let missing = missing_tools(&rust, &strings(&["cargo-CLIPPY-driver"]), &strings(&[]));
    let names: Vec<&str> = missing.iter().map(|t| t.name.as_str()).collect();
    assert_eq!(names, vec!["audit", "rustfmt"]);
    assert_eq!(missing[0].install_cmd, "install audit");
    assert!(!missing[0].found);
    let none = missing_tools(&rust, &strings(&["clippy", "audit"]), &strings(&["rustfmt"]));
    assert!(none.is_empty());
}

#[test]
fn recommendations_go_by_project_type() {
    let languages = vec![
        language("Rust", &["clippy"], &["rustfmt"]),
        language("Python", &["ruff"], &["black"]),
        language("Rust", &["other"], &[]),
        language("Go", &["golangci-lint"], &[]),
    ];
    let types = vec![
        ("Python".to_string(), "pyproject.toml".to_string()),
        ("Rust".to_string(), "Cargo.toml".to_string()),
        ("Zig".to_string(), "build.zig".to_string()),
        ("Go".to_string(), "go.mod".to_string()),
        ("Python".to_string(), "setup.py".to_string()),
    ];
    let recs = recommend(&types, &languages, &strings(&["ruff", "golangci-lint"]), &strings(&[]));
    let shown: Vec<(String, Vec<String>)> = recs
        .iter()
        .map(|(n, tools)| (n.clone(), tools.iter().map(|t| t.name.clone()).collect()))
        .collect();
    assert_eq!(
        shown,
        vec![
            ("Python".to_string(), strings(&["black"])),
            ("Rust".to_string(), strings(&["clippy", "rustfmt"])),
        ]
    );
}

#[test]
fn the_first_marker_that_exists_is_named() {
    let markers = strings(&["a", "b", "c"]);
    assert_eq!(first_marker(&markers, &vec![false, true, true]), Some("b".to_string()));
    assert_eq!(first_marker(&markers, &vec![false, false, false]), None);
    assert_eq!(first_marker(&markers, &vec![true]), None);
    assert_eq!(first_marker(&vec![], &vec![]), None);
}

#[test]
fn workflows_are_counted() {
    assert!(github_pipeline(0).is_none());
    let p = github_pipeline(12).unwrap();
    assert_eq!(p.platform, "GitHub Actions");
    assert_eq!(p.config_file, "12 workflow(s)");
}

const AMBER: &str = "\x1b[38;5;214m";
const RESET: &str = "\x1b[0m";
const BOLD: &str = "\x1b[1m";
const WIDTH: usize = 68;

fn dim(text: &str) -> String {
    format!("\x1b[2m{}\x1b[0m", text)
}

fn edge(left: &str, right: &str) -> String {
    format!("{}{}{}{}{}\n", AMBER, left, "─".repeat(WIDTH), right, RESET)
}

fn section(title: &str) -> String {
    format!("{}┌─ {} {}┐{}\n", AMBER, title, "─".repeat(WIDTH - title.len() - 3), RESET)
}

fn blank() -> String {
    format!("{}│{}│{}\n", AMBER, " ".repeat(WIDTH), RESET)
}

fn survey() -> antislop::hygiene::HygieneSurvey {
    antislop::hygiene::HygieneSurvey {
        project_types: vec![("Rust".to_string(), "Cargo.toml".to_string())],
        linters_found: vec!["clippy".to_string()],
        formatters_found: vec![],
        ci_pipelines: vec![antislop::hygiene::CIPipeline {
            platform: "GitHub Actions".to_string(),
            config_file: "2 workflow(s)".to_string(),
        }],
        precommit_found: None,
        root_path: "./proj".to_string(),
        recommendations: vec![(
            "Rust".to_string(),
            vec![
                Tool::new("rustfmt", "rustup component add rustfmt", "Formats Rust code"),
                Tool::new(
                    "audit",
                    "cargo install cargo-audit",
                    "Audits the dependencies of a crate for known vulnerabilities and more",
                ),
                Tool::new("deny", "cargo install cargo-deny", "Checks Licences"),
                Tool::new("fourth", "x", "Is not shown"),
            ],
        )],
    }
}

#[test]
fn the_survey_report_is_drawn_in_boxes() {
    let mut expected = String::new();
    expected += &edge("┌", "┐");
    let title = "CODE   HYGIENE   SURVEY";
    let left = (WIDTH - title.len()) / 2;
    expected += &format!(
        "{}│{}{}{}{}│{}\n",
        AMBER,
        " ".repeat(left),
        BOLD,
        title,
        " ".repeat(WIDTH - left - title.len()),
        RESET
    );
    let path_line = "for ./proj";
    let left = (WIDTH - path_line.len()) / 2;
    expected += &format!(
        "{}│{}{}{}│{}\n",
        AMBER,
        " ".repeat(left),
        dim(path_line),
        " ".repeat(WIDTH - left - path_line.len()),
        RESET
    );
    expected += &edge("└", "┘");
    expected += "\n";

    expected += &section("PROJECT DETECTION");
    expected += &blank();
    let line = "  RUST PROJECT";
    let marker = "Cargo.toml found";
    expected += &format!(
        "{}│{}{}{}{}  {}│{}\n",
        AMBER,
        BOLD,
        line,
        RESET,
        " ".repeat(WIDTH - line.len() - marker.len() - 2),
        dim(marker),
        RESET
    );
    expected += &format!(
        "{}│  {}{}{}  {}{}│{}\n",
        AMBER,
        AMBER,
        "█".repeat(48),
        RESET,
        "100%",
        " ".repeat(WIDTH - 48 - 10 - 4),
        RESET
    );
    expected += &blank();
    expected += &edge("└", "┘");
    expected += "\n";

    expected += &section("LINTERS & FORMATTERS");
    expected += &blank();
    let line = "  ✓ clippy";
    expected += &format!(
        "{}│\x1b[32m{}{}{} {}│{}\n",
        AMBER,
        line,
        RESET,
        " ".repeat(WIDTH - line.len() - 20),
        dim("linter"),
        RESET
    );
    expected += &blank();
    expected += &edge("└", "┘");
    expected += "\n";

    expected += &section("CI/CD PIPELINES");
    expected += &blank();
    let line = "  GitHub Actions";
    let config = "2 workflow(s)";
    expected += &format!(
        "{}│{}{}{}{}  {}│{}\n",
        AMBER,
        BOLD,
        line,
        RESET,
        " ".repeat(WIDTH - line.len() - config.len() - 4),
        dim(config),
        RESET
    );
    expected += &blank();
    expected += &edge("└", "┘");
    expected += "\n";

    expected += &section("PRE-COMMIT HOOKS");
    expected += &blank();
    expected += &format!(
        "{}│  \x1b[31m✗ No pre-commit hooks found{}{}│{}\n",
        AMBER,
        RESET,
        " ".repeat(WIDTH - 32),
        RESET
    );
    expected += &blank();
    expected += &edge("└", "┘");
    expected += "\n";

    expected += &section("RECOMMENDATIONS");
    expected += &blank();
    let header = "  Rust";
    expected += &format!(
        "{}│{}{}{}{}│{}\n",
        AMBER,
        BOLD,
        header,
        RESET,
        " ".repeat(WIDTH - header.len() - 2),
        RESET
    );
    for line in [
        "  • Add rustfmt for formats rust code".to_string(),
        format!(
            "{}...",
            &"  • Add audit for audits the dependencies of a crate for known vulnerabilities and more"
                [..WIDTH - 7]
        ),
        "  • Add deny for checks licences".to_string(),
    ] {
        expected += &format!(
            "{}│{}{}{}│{}\n",
            AMBER,
            dim(&line),
            RESET,
            " ".repeat(WIDTH - line.len() - 2),
            RESET
        );
    }
    expected += &blank();
    let line = "  💡 Consider adding pre-commit hooks for automated checks";
    expected += &format!(
        "{}│{}{}{}│{}\n",
        AMBER,
        dim(line),
        RESET,
        " ".repeat(WIDTH - line.len() - 2),
        RESET
    );
    expected += &edge("└", "┘");

    assert_eq!(antislop::hygiene_report::render_report(&survey()), expected);
}

#[test]
fn an_empty_survey_says_what_is_missing() {
    let empty = antislop::hygiene::HygieneSurvey {
        project_types: vec![],
        linters_found: vec![],
        formatters_found: vec![],
        ci_pipelines: vec![],
        precommit_found: Some(".husky/".to_string()),
        root_path: "x".repeat(100),
        recommendations: vec![],
    };
    let text = antislop::hygiene_report::render_report(&empty);
    assert!(text.contains("No project markers found. Add Cargo.toml, package.json, etc."));
    assert!(text.contains("✗ No linter or formatter configs found"));
    assert!(text.contains("✗ No CI/CD configuration found"));
    assert!(text.contains("  ✓ .husky/"));
    assert!(text.contains("  ✓ All recommended tools configured!"));
    assert!(!text.contains("💡"));
    assert!(text.contains(&format!("│{}│", dim(&format!("for {}", "x".repeat(100))))));
    assert_eq!(text.lines().count(), 33);
}

#[test]
fn a_project_is_known_by_the_extension_of_its_first_matching_file() {
    let extensions = strings(&["csproj", "sln"]);
    let entries = strings(&["./README.md", "./src", "./app.sln", "./app.csproj"]);
    assert_eq!(extension_marker(&extensions, &entries), Some("*.sln".to_string()));
    let entries = strings(&["./a.CSPROJ", "./csproj", "./.sln", "./dir.sln/x"]);
    assert_eq!(extension_marker(&extensions, &entries), None);
    let entries = strings(&["./app.csproj/"]);
    assert_eq!(extension_marker(&extensions, &entries), Some("*.csproj".to_string()));
    assert_eq!(extension_marker(&extensions, &vec![]), None);
    assert_eq!(extension_marker(&vec![], &strings(&["a.sln"])), None);
}

#[test]
fn workflows_and_shell_scripts_go_by_their_extension() {
    assert!(is_workflow_file(".github/workflows/ci.yml"));
    assert!(is_workflow_file(".github/workflows/ci.yaml"));
    assert!(!is_workflow_file(".github/workflows/ci.YML"));
    assert!(!is_workflow_file(".github/workflows/yml"));
    assert!(!is_workflow_file(".github/workflows/.yml"));
    assert!(!is_workflow_file(".github/workflows/ci.yml.bak"));
    assert!(is_shell_script("scripts/lint.sh"));
    assert!(!is_shell_script("scripts/lint.bash"));
    assert!(!is_shell_script("scripts/sh"));
}

#[test]
fn makefiles_are_looked_for_under_three_names() {
    assert_eq!(makefile_names(), strings(&["Makefile", "makefile", "GNUmakefile"]));
}

fn seen(pipelines: &[CIPipeline]) -> Vec<(String, String)> {
    pipelines.iter().map(|p| (p.platform.clone(), p.config_file.clone())).collect()
}

fn pair(platform: &str, file: &str) -> (String, String) {
    (platform.to_string(), file.to_string())
}

#[test]
fn pipelines_are_reported_in_a_fixed_order() {
    let known = pipeline_files();
    assert_eq!(
        seen(&known),
        vec![
            pair("GitLab CI", ".gitlab-ci.yml"),
            pair("Jenkins", "Jenkinsfile"),
            pair("CircleCI", ".circleci/config.yml"),
        ]
    );
    let read: Vec<bool> = known.iter().map(is_read_for_tools).collect();
    assert_eq!(read, vec![true, false, false]);
    assert_eq!(
        seen(&found_pipelines(2, &vec![true, false, true])),
        vec![
            pair("GitHub Actions", "2 workflow(s)"),
            pair("GitLab CI", ".gitlab-ci.yml"),
            pair("CircleCI", ".circleci/config.yml"),
        ]
    );
    assert_eq!(
        seen(&found_pipelines(0, &vec![false, true, false])),
        vec![pair("Jenkins", "Jenkinsfile")]
    );
    assert_eq!(seen(&found_pipelines(0, &vec![false, false, false])), vec![]);
    assert_eq!(
        seen(&found_pipelines(1, &vec![true, true])),
        vec![pair("GitHub Actions", "1 workflow(s)")]
    );
}

#[test]
fn a_tool_is_found_where_one_of_its_configurations_exists() {
    let tool = def("ruff");
    let mut found = strings(&["mypy"]);
    note_configured(&mut found, &tool, &vec![false, false]);
    assert_eq!(found, strings(&["mypy"]));
    note_configured(&mut found, &tool, &vec![false, true]);
    assert_eq!(found, strings(&["mypy", "ruff"]));
    note_configured(&mut found, &tool, &vec![true, true]);
    assert_eq!(found, strings(&["mypy", "ruff"]));
    note_configured(&mut found, &def("black"), &vec![]);
    assert_eq!(found, strings(&["mypy", "ruff"]));
}
