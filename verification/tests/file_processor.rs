use code_digest::{
    default_parse_config_for_language, process_file, process_files, render_digest, render_parsed,
    render_verbatim, File, FileKind, FileProcessorError, FileSkipReason, GlobPatternMatcher,
    KeyContent, Language, ParseError, ReadFile,
};

const RUST_SOURCE: &str = r#"
fn main() {
    println!("Hello, world!");
}
"#;

const GO_SOURCE: &str = r#"
package main

import "fmt"

func main() {
    fmt.Println("Hello, world!")
}
"#;

fn configs() -> (code_digest::ParseConfig, code_digest::ParseConfig, GlobPatternMatcher) {
    (
        default_parse_config_for_language(Language::Go),
        default_parse_config_for_language(Language::Rust),
        GlobPatternMatcher::new_from_strings(&vec![]).unwrap(),
    )
}

#[test]
fn test_process_file_rust() {
    let (go_config, rust_config, glob_matcher) = configs();
    let result = process_file("/tmp/x/test.rs", RUST_SOURCE, &go_config, &rust_config, &glob_matcher);
    let expected = "`/tmp/x/test.rs`\n```rust\nfn main() {\n    // ...\n}\n```\n";
    assert_eq!(result.unwrap(), expected);
}

#[test]
fn go_file_is_digested_with_a_blank_line_between_fragments() {
    let (go_config, rust_config, glob_matcher) = configs();
    let result = process_file("test.go", GO_SOURCE, &go_config, &rust_config, &glob_matcher);
    let expected = "`test.go`\n```go\nimport \"fmt\"\n\nfunc main() {\n\t// ...\n}\n```\n";
    assert_eq!(result.unwrap(), expected);
}

#[test]
fn matched_file_is_shown_in_full() {
    let (go_config, rust_config, _) = configs();
    let glob_matcher = GlobPatternMatcher::new_from_strings(&vec!["*.rs".to_string()]).unwrap();
    let result = process_file("src/test.rs", "fn a() {}\n", &go_config, &rust_config, &glob_matcher);
    assert_eq!(result.unwrap(), "`src/test.rs`\n```\nfn a() {}\n\n```\n");
    let result = process_file("notes", "text", &go_config, &rust_config, &glob_matcher);
    assert!(result.is_err());
    let all = GlobPatternMatcher::new_from_strings(&vec!["*".to_string()]).unwrap();
    let result = process_file("notes", "text", &go_config, &rust_config, &all);
    assert_eq!(result.unwrap(), "`notes`\n```\ntext\n```\n");
}

#[test]
fn file_without_extension_is_skipped() {
    let (go_config, rust_config, glob_matcher) = configs();
    for path in ["Makefile", "dir.d/Makefile", ".gitignore", "a/.."] {
        match process_file(path, "x", &go_config, &rust_config, &glob_matcher) {
            Err(FileProcessorError::FileSkipped(FileSkipReason::FileExtension)) => {}
            other => panic!("unexpected for {}: {:?}", path, other),
        }
    }
}

#[test]
fn other_extension_is_unsupported() {
    let (go_config, rust_config, glob_matcher) = configs();
    for (path, ext) in [("a.py", "py"), ("a.rs.bak", "bak"), ("a.", ""), ("x/.a.GO", "GO")] {
        match process_file(path, "x", &go_config, &rust_config, &glob_matcher) {
            Err(FileProcessorError::UnsupportedFileKind(found)) => assert_eq!(found, ext),
            other => panic!("unexpected for {}: {:?}", path, other),
        }
    }
}

#[test]
fn failed_extraction_is_reported() {
    let (go_config, rust_config, glob_matcher) = configs();
    let source = "package p\ntype (\n\tA int\n)\n";
    match process_file("a.go", source, &go_config, &rust_config, &glob_matcher) {
        Err(FileProcessorError::ErrorParsingFile(ParseError::CustomActionFailed(reason))) => {
            assert_eq!(reason, "type_declaration custom action failed")
        }
        other => panic!("unexpected: {:?}", other),
    }
}

#[test]
fn files_are_listed_and_directories_are_not() {
    let (go_config, rust_config, glob_matcher) = configs();
    let entry = |path: &str, kind: FileKind, content: Result<&str, &str>| ReadFile {
        file: File { path: path.to_string(), kind, depth: 1 },
        content: content.map(|s| s.to_string()).map_err(|s| s.to_string()),
    };
    let files = vec![
        entry("d", FileKind::Directory, Err("is a directory")),
        entry("d/test.rs", FileKind::File, Ok(RUST_SOURCE)),
        entry("d/sub.go", FileKind::Directory, Ok("package p\n")),
        entry("d/test.go", FileKind::File, Ok(GO_SOURCE)),
        entry("d/gone.rs", FileKind::File, Err("no such file")),
        entry("d/LICENSE", FileKind::File, Ok("free")),
    ];
    let results = process_files(&files, &go_config, &rust_config, &glob_matcher);
    assert_eq!(results.len(), 4);
    assert_eq!(
        results[0].as_ref().unwrap(),
        "`d/test.rs`\n```rust\nfn main() {\n    // ...\n}\n```\n"
    );
    assert_eq!(
        results[1].as_ref().unwrap(),
        "`d/test.go`\n```go\nimport \"fmt\"\n\nfunc main() {\n\t// ...\n}\n```\n"
    );
    match &results[2] {
        Err(FileProcessorError::ErrorReadingFile(reason)) => assert_eq!(reason, "no such file"),
        other => panic!("unexpected: {:?}", other),
    }
    assert!(matches!(
        results[3],
        Err(FileProcessorError::FileSkipped(FileSkipReason::FileExtension))
    ));
}

#[test]
fn listings_are_written_from_fragments() {
    let fragments = |list: &[&str]| -> Vec<KeyContent> {
        list.iter().map(|s| KeyContent { content: s.to_string() }).collect()
    };
    assert_eq!(render_digest("p", "go", &fragments(&[])), "`p`\n```go\n```\n");
    assert_eq!(render_digest("p", "go", &fragments(&["a"])), "`p`\n```go\na\n```\n");
    assert_eq!(
        render_digest("p", "rust", &fragments(&["a", "", "b\nc"])),
        "`p`\n```rust\na\n\n\n\nb\nc\n```\n"
    );
    assert_eq!(render_verbatim("p q", ""), "`p q`\n```\n\n```\n");
    assert_eq!(render_parsed("p", "go", Ok(fragments(&["a"]))).unwrap(), "`p`\n```go\na\n```\n");
    assert!(matches!(
        render_parsed("p", "go", Err(ParseError::TreeSitterParseError)),
        Err(FileProcessorError::ErrorParsingFile(ParseError::TreeSitterParseError))
    ));
}

#[test]
fn messages_of_listing_errors() {
    assert_eq!(
        FileProcessorError::ErrorReadingFile("denied".to_string()).message(),
        "Error reading file: denied"
    );
    assert_eq!(
        FileProcessorError::FileSkipped(FileSkipReason::FileExtension).message(),
        "File skipped: FileExtension"
    );
    assert_eq!(
        FileProcessorError::ErrorParsingFile(ParseError::TreeSitterParseError).message(),
        "Error parsing file: tree-sitter parse error"
    );
    assert_eq!(
        FileProcessorError::ErrorParsingFile(ParseError::CustomActionFailed("x".to_string()))
            .message(),
        "Error parsing file: custom selector action failed"
    );
    assert_eq!(
        FileProcessorError::UnsupportedFileKind("p\"y".to_string()).message(),
        "Unsupported file kind: \"p\\\"y\""
    );
    assert!(FileProcessorError::ErrorParsingFile(ParseError::TreeSitterParseError).is_fatal());
    assert!(!FileProcessorError::ErrorParsingFile(ParseError::CustomActionFailed("x".to_string()))
        .is_fatal());
    assert!(!FileProcessorError::ErrorReadingFile("x".to_string()).is_fatal());
    assert!(!FileProcessorError::UnsupportedFileKind("py".to_string()).is_fatal());
    assert!(FileProcessorError::FileSkipped(FileSkipReason::FileExtension).is_omission());
    assert!(FileProcessorError::UnsupportedFileKind("py".to_string()).is_omission());
    assert!(!FileProcessorError::ErrorReadingFile("x".to_string()).is_omission());
    assert!(!FileProcessorError::ErrorParsingFile(ParseError::TreeSitterParseError).is_omission());
}

struct Nothing;

impl code_digest::CustomRule for Nothing {
    fn apply(
        &self,
        _tree: &code_digest::SyntaxTree,
        _node: usize,
        _source: &str,
        _state: &mut code_digest::ParseState,
    ) -> Result<String, ParseError> {
        Err(ParseError::CustomActionFailed("nothing".to_string()))
    }
}

#[test]
fn listings_under_a_rule_of_the_caller() {
    let (go_config, mut rust_config, _) = configs();
    rust_config.add_selector(code_digest::Selector::new(
        "function_item",
        code_digest::SelectorAction::Custom(Box::new(Nothing)),
    ));
    let globs = GlobPatternMatcher::new_from_strings(&vec!["*.md".to_string()]).unwrap();
    // no rule is asked for a file that a glob matches, that has no
    // extension, or whose extension is not known
    assert_eq!(
        process_file("a.md", "text", &go_config, &rust_config, &globs).unwrap(),
        "`a.md`\n```\ntext\n```\n"
    );
    assert!(matches!(
        process_file("Makefile", "x", &go_config, &rust_config, &globs),
        Err(FileProcessorError::FileSkipped(FileSkipReason::FileExtension))
    ));
    assert!(matches!(
        process_file("a.py", "x", &go_config, &rust_config, &globs),
        Err(FileProcessorError::UnsupportedFileKind(_))
    ));
    // the error of the rule is handed on as an error of parsing
    match process_file("a.rs", RUST_SOURCE, &go_config, &rust_config, &globs) {
        Err(FileProcessorError::ErrorParsingFile(ParseError::CustomActionFailed(reason))) => {
            assert_eq!(reason, "nothing")
        }
        other => panic!("unexpected: {:?}", other),
    }
    // and a source on which the rule is not asked is listed
    assert_eq!(
        process_file("a.rs", "use a;\n", &go_config, &rust_config, &globs).unwrap(),
        "`a.rs`\n```rust\nuse a;\n```\n"
    );
    let files = vec![
        ReadFile {
            file: File { path: "a.rs".to_string(), kind: FileKind::File, depth: 1 },
            content: Ok(RUST_SOURCE.to_string()),
        },
        ReadFile {
            file: File { path: "b.rs".to_string(), kind: FileKind::File, depth: 1 },
            content: Ok("use a;\n".to_string()),
        },
    ];
    let results = process_files(&files, &go_config, &rust_config, &globs);
    assert_eq!(results.len(), 2);
    assert!(results[0].is_err());
    assert_eq!(results[1].as_ref().unwrap(), "`b.rs`\n```rust\nuse a;\n```\n");
}
