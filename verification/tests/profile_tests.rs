use antislop::config::{Pattern, PatternCategory, RegexPattern, Severity};
use antislop::profile::load::{LoadAction, LoadEvent};
use antislop::profile::{
    sanitize_name, Profile, ProfileInfo, ProfileLoader, ProfileMetadata, ProfileSource,
};
use antislop::Error;

fn rule(regex: &str, severity: Severity, message: &str, category: PatternCategory) -> Pattern {
    Pattern {
        regex: RegexPattern::new(regex.to_string()).unwrap().into_string(),
        severity,
        message: message.to_string(),
        category,
        ast_query: None,
        languages: vec![],
    }
}

fn named(name: &str, extends: &[&str], rules: Vec<Pattern>) -> Profile {
    Profile {
        metadata: ProfileMetadata {
            name: name.to_string(),
            extends: extends.iter().map(|s| s.to_string()).collect(),
            ..Default::default()
        },
        patterns: rules,
    }
}

#[test]
fn test_profile_new() {
    let profile = Profile::new("test-profile".to_string());
    assert_eq!(profile.metadata.name, "test-profile");
    assert!(profile.patterns.is_empty());
}

#[test]
fn new_profile_has_default_metadata() {
    let profile = Profile::new("p".to_string());
    assert_eq!(profile.metadata.version, "0.1.0");
    assert_eq!(profile.metadata.description, "");
    assert_eq!(profile.metadata.author, "");
    assert_eq!(profile.metadata.url, None);
    assert_eq!(profile.metadata.requires_version, None);
    assert!(profile.metadata.extends.is_empty());
    assert!(profile.patterns().is_empty());
}

#[test]
fn test_profile_merge_with() {
    let mut base = Profile {
        metadata: ProfileMetadata { name: "base".to_string(), ..Default::default() },
        patterns: vec![rule("(?i)TODO:", Severity::Medium, "TODO", PatternCategory::Placeholder)],
    };

    let extension = Profile {
        metadata: ProfileMetadata { name: "extension".to_string(), ..Default::default() },
        patterns: vec![rule("(?i)FIXME:", Severity::High, "FIXME", PatternCategory::Placeholder)],
    };

    base.merge_with(&extension);
    assert_eq!(base.patterns.len(), 2);
}

#[test]
fn merge_keeps_own_rules_and_drops_repeats() {
    let mut base = named(
        "base",
        &[],
        vec![
            rule("a", Severity::Low, "first a", PatternCategory::Stub),
            rule("b", Severity::Low, "own b", PatternCategory::Stub),
            rule("a", Severity::High, "second a", PatternCategory::Stub),
            rule("a", Severity::Low, "hedging a", PatternCategory::Hedging),
        ],
    );
    let other = named(
        "other",
        &[],
        vec![
            rule("b", Severity::Critical, "their b", PatternCategory::Stub),
            rule("c", Severity::Low, "their c", PatternCategory::Stub),
            rule("c", Severity::High, "their c again", PatternCategory::Stub),
            rule("b", Severity::Low, "their deferral b", PatternCategory::Deferral),
        ],
    );
    base.merge_with(&other);
    let messages: Vec<&str> = base.patterns.iter().map(|p| p.message.as_str()).collect();
    assert_eq!(
        messages,
        vec!["own b", "second a", "hedging a", "their c", "their deferral b"]
    );
    assert_eq!(base.metadata.name, "base");
}

#[test]
fn profile_rules_by_category() {
    let p = named(
        "p",
        &[],
        vec![
            rule("a", Severity::Low, "one", PatternCategory::Stub),
            rule("b", Severity::Low, "two", PatternCategory::Hedging),
            rule("c", Severity::Low, "three", PatternCategory::Stub),
        ],
    );
    let stubs = p.patterns_for_category(&PatternCategory::Stub);
    let messages: Vec<&str> = stubs.iter().map(|p| p.message.as_str()).collect();
    assert_eq!(messages, vec!["one", "three"]);
    assert_eq!(p.patterns().len(), 3);
}

#[test]
fn test_profile_source_parse_remote() {
    let source = ProfileSource::parse("https://example.com/profile.toml", false).unwrap();
    match source {
        ProfileSource::Remote(url) => assert_eq!(url, "https://example.com/profile.toml"),
        _ => panic!("Expected Remote source"),
    }
}

#[test]
fn test_profile_source_parse_builtin() {
    let source = ProfileSource::parse("my-profile", false).unwrap();
    match source {
        ProfileSource::Builtin(name) => assert_eq!(name, "my-profile"),
        _ => panic!("Expected Builtin source"),
    }
}

#[test]
fn test_profile_source_parse_local() {
    let source = ProfileSource::parse("/tmp/test-profile.toml", true).unwrap();
    match source {
        ProfileSource::Local(p) => assert_eq!(p, "/tmp/test-profile.toml"),
        _ => panic!("Expected Local source"),
    }
}

#[test]
fn a_url_is_remote_even_where_a_file_of_that_name_exists() {
    match ProfileSource::parse("http://example.com/p.toml", true).unwrap() {
        ProfileSource::Remote(url) => assert_eq!(url, "http://example.com/p.toml"),
        _ => panic!("Expected Remote source"),
    }
    match ProfileSource::parse("ftp://example.com/p.toml", false).unwrap() {
        ProfileSource::Builtin(name) => assert_eq!(name, "ftp://example.com/p.toml"),
        _ => panic!("Expected Builtin source"),
    }
}

#[test]
fn test_sanitize_name() {
    assert_eq!(sanitize_name("test-profile"), "test_profile");
    assert_eq!(sanitize_name("test/profile"), "test_profile");
    assert_eq!(sanitize_name("test profile"), "test_profile");
}

#[test]
fn sanitize_keeps_letters_and_numbers_of_any_script() {
    assert_eq!(sanitize_name("https://a.b/ç9é"), "https___a_b_ç9é");
    assert_eq!(sanitize_name(""), "");
}

#[test]
fn search_goes_project_user_cache() {
    let loader = ProfileLoader::with_dirs(
        "/cache".to_string(),
        ".antislop/profiles".to_string(),
        "/home/u/.config/antislop/profiles/".to_string(),
    );
    let search = loader.load_by_name("strict");
    assert_eq!(
        search.candidates,
        vec![
            ".antislop/profiles/strict.toml".to_string(),
            "/home/u/.config/antislop/profiles/strict.toml".to_string(),
            "/cache/strict.toml".to_string(),
        ]
    );
    match search.not_found {
        Error::ConfigInvalid(text) => assert_eq!(
            text,
            "Profile 'strict' not found. Searched in: .antislop/profiles/strict.toml, \
             /home/u/.config/antislop/profiles/strict.toml, /cache/strict.toml"
        ),
        other => panic!("unexpected error {:?}", other),
    }
}

#[test]
fn profile_info_copies_the_metadata() {
    let mut p = Profile::new("n".to_string());
    p.metadata.description = "d".to_string();
    p.metadata.version = "1.2.3".to_string();
    let info = ProfileInfo::of(&p, "/dir", "/dir/n.toml");
    assert_eq!(info.name, "n");
    assert_eq!(info.description, "d");
    assert_eq!(info.version, "1.2.3");
    assert_eq!(info.source, "/dir");
    assert_eq!(info.path, "/dir/n.toml");
}

fn loader() -> ProfileLoader {
    ProfileLoader::with_dirs("c".to_string(), "p".to_string(), "u".to_string())
}

fn expect_probe(action: LoadAction, name: &str) {
    match action {
        LoadAction::Probe(n) => assert_eq!(n, name),
        other => panic!("expected a probe for {}, got {:?}", name, other),
    }
}

fn expect_fetch_builtin(action: LoadAction, name: &str) {
    match action {
        LoadAction::Fetch(ProfileSource::Builtin(n)) => assert_eq!(n, name),
        other => panic!("expected a fetch of {}, got {:?}", name, other),
    }
}

#[test]
fn load_without_extends_is_done_after_the_first_fetch() {
    let source = ProfileSource::Builtin("solo".to_string());
    let (state, action) = loader().load(&source);
    expect_fetch_builtin(action, "solo");
    let profile = named("solo", &[], vec![rule("a", Severity::Low, "a", PatternCategory::Stub)]);
    let (_, action) = state.step(LoadEvent::Fetched(Ok(profile)));
    match action {
        LoadAction::Done(Ok(p)) => {
            assert_eq!(p.metadata.name, "solo");
            assert_eq!(p.patterns.len(), 1);
        }
        other => panic!("unexpected {:?}", other),
    }
}

#[test]
fn load_merges_extended_profiles_depth_first() {
    let source = ProfileSource::Builtin("top".to_string());
    let (state, action) = loader().load(&source);
    expect_fetch_builtin(action, "top");
    let top = named(
        "top",
        &["mid", "side"],
        vec![rule("t", Severity::Low, "top t", PatternCategory::Stub)],
    );
    let (state, action) = state.step(LoadEvent::Fetched(Ok(top)));
    expect_probe(action, "mid");
    let (state, action) = state.step(LoadEvent::Probed(false));
    expect_fetch_builtin(action, "mid");
    let mid = named(
        "mid",
        &["leaf"],
        vec![
            rule("t", Severity::High, "mid t", PatternCategory::Stub),
            rule("m", Severity::Low, "mid m", PatternCategory::Stub),
        ],
    );
    let (state, action) = state.step(LoadEvent::Fetched(Ok(mid)));
    expect_probe(action, "leaf");
    let (state, action) = state.step(LoadEvent::Probed(true));
    match action {
        LoadAction::Fetch(ProfileSource::Local(p)) => assert_eq!(p, "leaf"),
        other => panic!("unexpected {:?}", other),
    }
    let leaf = named("leaf", &[], vec![rule("l", Severity::Low, "leaf l", PatternCategory::Stub)]);
    let (state, action) = state.step(LoadEvent::Fetched(Ok(leaf)));
    expect_probe(action, "side");
    let (state, action) = state.step(LoadEvent::Probed(false));
    expect_fetch_builtin(action, "side");
    let side = named("side", &[], vec![rule("s", Severity::Low, "side s", PatternCategory::Stub)]);
    let (state, action) = state.step(LoadEvent::Fetched(Ok(side)));
    match action {
        LoadAction::Done(Ok(p)) => {
            let messages: Vec<&str> = p.patterns.iter().map(|r| r.message.as_str()).collect();
            assert_eq!(messages, vec!["top t", "mid m", "leaf l", "side s"]);
            assert_eq!(p.metadata.name, "top");
            assert!(p.metadata.extends.is_empty());
        }
        other => panic!("unexpected {:?}", other),
    }
    assert!(state.frames.is_empty());
    assert_eq!(state.visited, vec!["top", "mid", "leaf", "side"]);
}

#[test]
fn a_cycle_is_refused_and_passed_over() {
    let source = ProfileSource::Builtin("a".to_string());
    let (state, _) = loader().load(&source);
    let a = named("a", &["b"], vec![rule("x", Severity::Low, "a x", PatternCategory::Stub)]);
    let (state, action) = state.step(LoadEvent::Fetched(Ok(a)));
    expect_probe(action, "b");
    let (state, _) = state.step(LoadEvent::Probed(false));
    let b = named("b", &["a"], vec![rule("y", Severity::Low, "b y", PatternCategory::Stub)]);
    let (state, action) = state.step(LoadEvent::Fetched(Ok(b)));
    expect_probe(action, "a");
    let (state, _) = state.step(LoadEvent::Probed(false));
    let again = named("a", &["b"], vec![rule("z", Severity::Low, "a z", PatternCategory::Stub)]);
    let (_, action) = state.step(LoadEvent::Fetched(Ok(again)));
    match action {
        LoadAction::Done(Ok(p)) => {
            let messages: Vec<&str> = p.patterns.iter().map(|r| r.message.as_str()).collect();
            assert_eq!(messages, vec!["a x", "b y"]);
        }
        other => panic!("unexpected {:?}", other),
    }
}

#[test]
fn the_first_profile_failing_fails_the_load_an_extended_one_does_not() {
    let source = ProfileSource::Remote("https://x/y.toml".to_string());
    let (state, action) = loader().load(&source);
    match action {
        LoadAction::Fetch(ProfileSource::Remote(u)) => assert_eq!(u, "https://x/y.toml"),
        other => panic!("unexpected {:?}", other),
    }
    let (_, action) = state.step(LoadEvent::Fetched(Err(Error::ConfigInvalid("gone".into()))));
    match action {
        LoadAction::Done(Err(Error::ConfigInvalid(text))) => assert_eq!(text, "gone"),
        other => panic!("unexpected {:?}", other),
    }

    let (state, _) = loader().load(&ProfileSource::Builtin("a".to_string()));
    let a = named("a", &["missing"], vec![rule("x", Severity::Low, "a x", PatternCategory::Stub)]);
    let (state, _) = state.step(LoadEvent::Fetched(Ok(a)));
    let (state, _) = state.step(LoadEvent::Probed(false));
    let (_, action) = state.step(LoadEvent::Fetched(Err(Error::ConfigInvalid("gone".into()))));
    match action {
        LoadAction::Done(Ok(p)) => assert_eq!(p.patterns.len(), 1),
        other => panic!("unexpected {:?}", other),
    }
}

#[test]
fn a_report_out_of_turn_ends_the_load() {
    let (state, _) = loader().load(&ProfileSource::Builtin("a".to_string()));
    let (state, action) = state.step(LoadEvent::Probed(true));
    match action {
        LoadAction::Done(Err(Error::ConfigInvalid(text))) => {
            assert_eq!(text, "Profile loading was driven out of order")
        }
        other => panic!("unexpected {:?}", other),
    }
    let (_, action) = state.step(LoadEvent::Probed(true));
    assert!(matches!(action, LoadAction::Done(Err(_))));
}
