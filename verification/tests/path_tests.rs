use antislop::detector::language::{extension, path_parts};
use antislop::detector::Language;
use std::path::Path;

fn agrees_with_std(path: &str) {
    let std_path = Path::new(path);
    let name = std_path.file_name().map(|p| p.to_str().unwrap().to_string());
    let stem = std_path.file_stem().map(|p| p.to_str().unwrap().to_string());
    let ext = std_path.extension().map(|p| p.to_str().unwrap().to_string());
    let parent = std_path.parent().map(|p| p.to_str().unwrap().to_string());
    let parts = path_parts(path);
    assert_eq!(parts.name, name.unwrap_or_default(), "file name of {:?}", path);
    assert_eq!(parts.stem, stem.unwrap_or_default(), "stem of {:?}", path);
    assert_eq!(parts.extension, ext, "extension of {:?}", path);
    assert_eq!(parts.directory, parent, "parent of {:?}", path);
    let alone: Option<String> = extension(path).map(|cs| cs.into_iter().collect());
    assert_eq!(alone, parts.extension, "extension of {:?}", path);
}

#[test]
fn a_path_that_ends_in_a_separator_is_classified_by_the_component_before_it() {
    assert_eq!(Language::from_path("x.py/"), Language::Python);
    assert_eq!(Language::from_path("src/x.PY//"), Language::Python);
    assert_eq!(Language::from_path("a/b.rs/."), Language::Rust);
    assert_eq!(Language::from_path("a/b.rs/./"), Language::Rust);
    assert_eq!(Language::from_path("a.rs/b"), Language::Unknown);
    assert_eq!(Language::from_path("a.rs/.."), Language::Unknown);
    assert_eq!(Language::from_path(".."), Language::Unknown);
    assert_eq!(Language::from_path("."), Language::Unknown);
    assert_eq!(Language::from_path("/"), Language::Unknown);
    assert_eq!(Language::from_path(".py/"), Language::Unknown);
}

#[test]
fn the_parts_of_a_path_skip_separators_and_dots_at_its_end() {
    let parts = path_parts("a/b.rs/.");
    assert_eq!(parts.name, "b.rs");
    assert_eq!(parts.stem, "b");
    assert_eq!(parts.extension, Some("rs".to_string()));
    assert_eq!(parts.directory, Some("a".to_string()));
    let parts = path_parts("a//b");
    assert_eq!(parts.name, "b");
    assert_eq!(parts.directory, Some("a".to_string()));
    let parts = path_parts("..");
    assert_eq!(parts.name, "");
    assert_eq!(parts.stem, "");
    assert_eq!(parts.extension, None);
    assert_eq!(parts.directory, Some(String::new()));
    let parts = path_parts("/x.py/");
    assert_eq!(parts.name, "x.py");
    assert_eq!(parts.directory, Some("/".to_string()));
    let parts = path_parts("/");
    assert_eq!(parts.name, "");
    assert_eq!(parts.directory, None);
    let parts = path_parts("");
    assert_eq!(parts.name, "");
    assert_eq!(parts.directory, None);
    let parts = path_parts("./x");
    assert_eq!(parts.directory, Some(".".to_string()));
}

#[test]
fn the_parts_of_a_path_are_those_that_std_gives() {
    for path in [
        "", "/", "//", ".", "..", "...", "./", "../", "/.", "/..", "a", "a/", "a//", "a/.", "a/..",
        "a/b", "a//b", "a/./b", "a/b/.", "a/b/./", "a/b//.//", "./a", "././a", "/a", "//a", "/a/b",
        "x.py", "x.py/", ".hidden", ".hidden.rs", "a.", "a..", "..a", "a.b.c", "dir.d/file",
        "dir.d/file.txt", "dir/.", "dir/.x", "/./", "/./a", "/../a", "a/../b.rs", "é/ü.rs", "a b/c d.e",
    ] {
        agrees_with_std(path);
    }
}

#[test]
fn short_paths_of_separators_dots_and_letters_are_parted_as_std_parts_them() {
    let letters = ['/', '.', 'a'];
    let mut paths: Vec<String> = vec![String::new()];
    let mut from: usize = 0;
    for _ in 0..7 {
        let until = paths.len();
        for i in from..until {
            for c in letters {
                let mut longer = paths[i].clone();
                longer.push(c);
                paths.push(longer);
            }
        }
        from = until;
    }
    assert_eq!(paths.len(), 3280);
    for path in &paths {
        agrees_with_std(path);
    }
}
