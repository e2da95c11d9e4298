use code_digest::{ignore_rules, File, FileKind, GlobPatternMatcher};

#[test]
fn test_glob_pattern_matcher() {
    let mut glob_pattern_matcher = GlobPatternMatcher::new();
    glob_pattern_matcher
        .add_glob_pattern("*.rs")
        .expect("Failed to add glob pattern");
    glob_pattern_matcher
        .add_glob_pattern("*.toml")
        .expect("Failed to add glob pattern");
    glob_pattern_matcher
        .add_glob_pattern("*.txt")
        .expect("Failed to add glob pattern");
    assert!(glob_pattern_matcher.matches("Cargo.toml"));
    assert!(glob_pattern_matcher.matches("src/main.rs"));
    assert!(glob_pattern_matcher.matches("src/file_tree.rs"));
    assert!(glob_pattern_matcher.matches("src/file_tree.txt"));
    assert!(!glob_pattern_matcher.matches("src/file_tree.rs.bak"));
    assert!(glob_pattern_matcher.matches("src/file_tree.rs.bak.txt"));
}

#[test]
fn test_glob_pattern_matches_absolute_path() {
    let mut glob_pattern_matcher = GlobPatternMatcher::new();
    glob_pattern_matcher
        .add_glob_pattern("*.rs")
        .expect("Failed to add glob pattern");
    assert!(glob_pattern_matcher.matches("/home/user/src/main.rs"));
}

#[test]
fn matcher_without_globs_matches_nothing() {
    assert!(!GlobPatternMatcher::new().matches("a.rs"));
    assert!(!GlobPatternMatcher::default().matches(""));
    assert!(!GlobPatternMatcher::new_from_strings(&vec![]).unwrap().matches("a.rs"));
}

#[test]
fn matcher_from_strings() {
    let matcher =
        GlobPatternMatcher::new_from_strings(&vec!["*.md".to_string(), "doc/**/x?".to_string()])
            .unwrap();
    assert!(matcher.matches("README.md"));
    assert!(matcher.matches("doc/a/b/xy"));
    assert!(!matcher.matches("doc/a/b/xyz"));
    assert!(!matcher.matches("*.md "));
}

#[test]
fn text_that_is_no_glob_is_reported() {
    let mut matcher = GlobPatternMatcher::new();
    matcher.add_glob_pattern("*.rs").unwrap();
    let error = matcher.add_glob_pattern("a***b").unwrap_err();
    assert_eq!(error.pattern, "a***b");
    assert!(!error.message.is_empty());
    // the matcher is as it was
    assert!(matcher.matches("x.rs"));
    assert!(!matcher.matches("ab"));

    let error = GlobPatternMatcher::new_from_strings(&vec![
        "*.a".to_string(),
        "[".to_string(),
        "***".to_string(),
    ])
    .err()
    .unwrap();
    assert_eq!(error.pattern, "[");
}

#[test]
fn entries_are_equal_by_path() {
    let a = File { path: "x/y".to_string(), kind: FileKind::File, depth: 1 };
    let b = File { path: "x/y".to_string(), kind: FileKind::Directory, depth: 7 };
    let c = File { path: "x/z".to_string(), kind: FileKind::File, depth: 1 };
    assert!(a == b);
    assert!(a != c);
    assert_ne!(a.kind, b.kind);
    // paths are compared component by component
    let d = File { path: "x//y/".to_string(), kind: FileKind::File, depth: 1 };
    assert!(a == d);
}

#[test]
fn entries_are_ordered_by_path() {
    let entry = |path: &str| File { path: path.to_string(), kind: FileKind::File, depth: 0 };
    assert!(entry("a/b") < entry("a/c"));
    assert!(entry("a/c") > entry("a/b"));
    assert!(entry("a") < entry("a/b"));
    // a component ends before the next begins: `a/b` comes before `a.b`
    assert!(entry("a/b") < entry("a.b"));
    assert_eq!(entry("a/b").partial_cmp(&entry("a/b/")), Some(std::cmp::Ordering::Equal));
    assert!(!(entry("a/b") < entry("a/b")));
    assert!(FileKind::File < FileKind::Directory);
}

#[test]
fn rules_that_keep_a_walk_out() {
    assert_eq!(ignore_rules(&vec![]), vec!["!.gitkeep".to_string()]);
    assert_eq!(
        ignore_rules(&vec!["target".to_string(), "/abs/dir".to_string(), "".to_string()]),
        vec![
            "!target".to_string(),
            "!/abs/dir".to_string(),
            "!".to_string(),
            "!.gitkeep".to_string()
        ]
    );
}
