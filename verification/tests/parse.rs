use code_digest::{
    default_parse_config_for_language, from_language, parse, parse_nodes, report, to_tree,
    Indentation, Language, ParseConfig, ParseError, RawNode, Selector, SelectorAction, SyntaxTree,
};

#[test]
fn test_parse_go() {
    let source_code = r#"
package test

import (
	"context"
)

type SetupConfig struct {
	usersTableName               repository.UsersTableName
	usernamesTableName           repository.UsernamesTableName
	emailsTableName              repository.EmailsTableName
	passwordResetTokensTableName repository.PasswordResetTokensTableName
	siteName                     string
}


func Setup(t *testing.T, setupConfig *SetupConfig) (*SetupFixture, error) {
    return nil, nil

"#
    .trim();
    let config = default_parse_config_for_language(Language::Go);
    let result = parse(source_code, &config).unwrap();
    assert_eq!(result.len(), 3);
    assert_eq!(
        result[0].content,
        r#"import (
	"context"
)"#
    );
    assert_eq!(
        result[1].content,
        r#"type SetupConfig struct {
	usersTableName               repository.UsersTableName
	usernamesTableName           repository.UsernamesTableName
	emailsTableName              repository.EmailsTableName
	passwordResetTokensTableName repository.PasswordResetTokensTableName
	siteName                     string
}"#
    );
    assert_eq!(
        result[2].content,
        r#"func Setup(t *testing.T, setupConfig *SetupConfig)(*SetupFixture, error) {
	// ...
}"#
    );
}

#[test]
fn test_parse_rust() {
    let source_code = r#"
use std::collections::HashMap;

pub struct Point {
    x: f64,
    y: f64,
}

pub enum Shape {
    Circle(Point, f64),
    Rectangle(Point, Point),
}

pub type PointMap = HashMap<String, Point>;

pub fn distance(p1: &Point, p2: &Point) -> f64 {
    // ...
}

pub fn area(shape: &Shape) -> f64 {
    // ...
}
"#
    .trim();
    let config = default_parse_config_for_language(Language::Rust);
    let result = parse(source_code, &config).unwrap();
    assert_eq!(result.len(), 6);
    assert_eq!(result[0].content, "use std::collections::HashMap;");
    assert_eq!(
        result[1].content,
        r#"pub struct Point {
    x: f64,
    y: f64,
}"#
    );
    assert_eq!(
        result[2].content,
        r#"pub enum Shape {
    Circle(Point, f64),
    Rectangle(Point, Point),
}"#
    );
    assert_eq!(
        result[3].content,
        "pub type PointMap = HashMap<String, Point>;"
    );
    assert_eq!(
        result[4].content,
        r#"pub fn distance(p1: &Point, p2: &Point) -> f64 {
    // ...
}"#
    );
    assert_eq!(
        result[5].content,
        r#"pub fn area(shape: &Shape) -> f64 {
    // ...
}"#
    );
}

#[test]
fn test_parse_python() {
    let source_code = r#"
import math
from typing import List, Tuple

class MyClass:
    """A simple example class"""
    i = 12345
    
    def f(self):
        return 'hello world'

def f():
    return 'hello world'
"#;
    let config = default_parse_config_for_language(Language::Python);
    let result = parse(source_code, &config).unwrap();
    assert_eq!(result.len(), 4);
    assert_eq!(result[0].content, "import math");
    assert_eq!(result[1].content, "from typing import List, Tuple");
    assert_eq!(
        result[2].content,
        "class MyClass:\n    \ndef f(self) : {\n    // ...\n}"
    );
    assert_eq!(result[3].content, "def f() : {\n    // ...\n}");
}

const RUST_MODULE: &str = r#"
use a::b;

mod inner {
    pub fn hidden() -> u8 {
        1
    }

    pub struct Hidden;
}

impl Point {
    fn also_hidden(&self) {}
}

trait Shape {
    fn area(&self) -> f64;
}

fn   spaced  ( x : u8 )   ->   u8   {
    x
}
"#;

#[test]
fn nodes_of_unregistered_kinds_are_pruned_with_what_they_hold() {
    let config = default_parse_config_for_language(Language::Rust);
    let result = parse(RUST_MODULE, &config).unwrap();
    let texts: Vec<&str> = result.iter().map(|f| f.content.as_str()).collect();
    assert_eq!(texts, vec!["use a::b;", "fn spaced( x : u8 ) -> u8 {\n    // ...\n}"]);
}

#[test]
fn verbatim_fragments_are_pieces_of_the_source() {
    let source = "use  a :: {\n    b,   c\n}  ;\n\nstruct   S  {  x : u8 ,\n\n y: u8 }\n";
    let config = default_parse_config_for_language(Language::Rust);
    let result = parse(source, &config).unwrap();
    assert_eq!(result.len(), 2);
    assert_eq!(result[0].content, "use  a :: {\n    b,   c\n}  ;");
    assert_eq!(result[1].content, "struct   S  {  x : u8 ,\n\n y: u8 }");
    for fragment in &result {
        assert!(source.contains(fragment.content.as_str()));
        assert_eq!(fragment.content, fragment.content.trim());
    }
}

#[test]
fn parsing_twice_gives_the_same_fragments() {
    for (language, source) in [
        (Language::Rust, RUST_MODULE),
        (Language::Go, "package p\n\nimport \"fmt\"\n\ntype T struct{}\n\nfunc (t T) M() {}\n"),
        (Language::Python, "import os\n\nclass A:\n    def f(self):\n        pass\n"),
    ] {
        let config = default_parse_config_for_language(language);
        let first: Vec<String> =
            parse(source, &config).unwrap().into_iter().map(|f| f.content).collect();
        let second: Vec<String> =
            parse(source, &config).unwrap().into_iter().map(|f| f.content).collect();
        assert_eq!(first, second);
        assert!(!first.is_empty());
    }
}

#[test]
fn go_methods_interfaces_and_aliases() {
    let source = "package p\n\ntype I interface {\n\tM()\n}\n\ntype N int\n\nfunc (n N) M() {\n\treturn\n}\n";
    let config = default_parse_config_for_language(Language::Go);
    let result = parse(source, &config).unwrap();
    let texts: Vec<&str> = result.iter().map(|f| f.content.as_str()).collect();
    assert_eq!(texts, vec!["type I interface {\n\tM()\n}", "", "func(n N) M() {\n\t// ...\n}"]);
}

#[test]
fn go_grouped_type_declaration_fails_the_extraction() {
    let source = "package p\n\ntype (\n\tA int\n)\n";
    let config = default_parse_config_for_language(Language::Go);
    match parse(source, &config) {
        Err(ParseError::CustomActionFailed(reason)) => {
            assert_eq!(reason, "type_declaration custom action failed");
            assert_eq!(
                ParseError::CustomActionFailed(reason).message(),
                "custom selector action failed"
            );
        }
        other => panic!("unexpected: {:?}", other.map(|f| f.len())),
    }
    assert_eq!(ParseError::TreeSitterParseError.message(), "tree-sitter parse error");
}

#[test]
fn rust_signature_without_a_body_is_rendered_unchanged() {
    let source = "trait T {\n    fn  area ( &self )  ->  f64 ;\n}\n";
    let mut config = default_parse_config_for_language(Language::Rust);
    config.add_selector(Selector::new("trait_item", SelectorAction::SelectOnly));
    config.add_selector(Selector::new("declaration_list", SelectorAction::SelectOnly));
    let result = parse(source, &config).unwrap();
    assert_eq!(result.len(), 1);
    assert_eq!(result[0].content, "fn  area ( &self )  ->  f64 ;");
}

#[test]
fn source_that_is_not_ascii() {
    let source = "// héllo wörld\nfn grüße() -> &'static str {\n    \"日本語\"\n}\n\nstruct Größe;\n";
    let config = default_parse_config_for_language(Language::Rust);
    let result = parse(source, &config).unwrap();
    let texts: Vec<&str> = result.iter().map(|f| f.content.as_str()).collect();
    assert_eq!(
        texts,
        vec!["fn grüße() -> &'static str {\n    // ...\n}", "struct Größe;"]
    );
}

#[test]
fn empty_source() {
    for language in [Language::Go, Language::Rust, Language::Python] {
        let config = default_parse_config_for_language(language);
        assert!(parse("", &config).unwrap().is_empty());
    }
}

#[test]
fn every_grammar_parses() {
    for (language, source, root) in [
        (Language::Go, "package p\n", "source_file"),
        (Language::Hcl, "a = 1\n", "config_file"),
        (Language::Java, "class A {}\n", "program"),
        (Language::Python, "x = 1\n", "module"),
        (Language::Rust, "fn f() {}\n", "source_file"),
    ] {
        let tree = to_tree(source, &from_language(language)).expect("a tree");
        assert_eq!(tree.kind(0), root);
        assert_eq!((tree.start_byte(0), tree.end_byte(0)), (0, source.len()));
        assert!(tree.len() > 1);
        assert!(tree.fits(source));
        for node in 1..tree.len() {
            assert!(tree.end_byte(node) <= source.len());
        }
    }
}

#[test]
fn tree_of_a_small_rust_source() {
    let source = "fn f() {}";
    let tree = to_tree(source, &from_language(Language::Rust)).unwrap();
    // source_file [function_item [fn, identifier, parameters [(, )], block [{, }]]]
    let kinds: Vec<&str> = (0..tree.len()).map(|n| tree.kind(n)).collect();
    assert_eq!(
        kinds,
        vec!["source_file", "function_item", "fn", "identifier", "parameters", "(", ")", "block", "{", "}"]
    );
    assert_eq!(tree.child_count(0), 1);
    assert_eq!(tree.child(0, 0), Some(1));
    let children: Vec<usize> = (0..tree.child_count(1)).map(|k| tree.child(1, k).unwrap()).collect();
    assert_eq!(children, vec![2, 3, 4, 7]);
    assert_eq!(tree.child(4, 1), Some(6));
    assert_eq!(tree.text(3, source), "f");
    assert_eq!(tree.text(7, source), "{}");
}

#[test]
fn java_with_a_registry_of_the_caller() {
    let source = "class A {\n    int f(int x) {\n        return x;\n    }\n}\n";
    let mut config = ParseConfig::new(Language::Java, Indentation::Spaces(2));
    config.add_selector(Selector::new("program", SelectorAction::SelectOnly));
    config.add_selector(Selector::new("class_declaration", SelectorAction::SelectOnly));
    config.add_selector(Selector::new("class_body", SelectorAction::SelectOnly));
    config.add_selector(Selector::new("method_declaration", SelectorAction::CaptureWithoutBlock));
    let result = parse(source, &config).unwrap();
    assert_eq!(result.len(), 1);
    assert_eq!(result[0].content, "int f (int x) {\n  // ...\n}");
}

fn raw(kind: &str, start_byte: usize, end_byte: usize, parent: usize) -> RawNode {
    RawNode { kind: kind.to_string(), start_byte, end_byte, parent }
}

#[test]
fn nodes_that_a_grammar_reports() {
    let nodes = report("use a;", Language::Rust).unwrap();
    let seen: Vec<(&str, usize, usize, usize)> =
        nodes.iter().map(|n| (n.kind.as_str(), n.start_byte, n.end_byte, n.parent)).collect();
    assert_eq!(
        seen,
        vec![
            ("source_file", 0, 6, 0),
            ("use_declaration", 0, 6, 0),
            ("use", 0, 3, 1),
            ("identifier", 4, 5, 1),
            (";", 5, 6, 1),
        ]
    );
    let config = default_parse_config_for_language(Language::Rust);
    let result = parse_nodes(Some(nodes), "use a;", &config).unwrap();
    assert_eq!(result.len(), 1);
    assert_eq!(result[0].content, "use a;");
}

#[test]
fn nodes_that_are_no_tree_over_the_source_give_no_digest() {
    let config = default_parse_config_for_language(Language::Rust);
    let source = "use a;";
    let cases: Vec<Option<Vec<RawNode>>> = vec![
        // nothing reported
        None,
        // no node at all
        Some(vec![]),
        // a node that names itself as its parent
        Some(vec![raw("source_file", 0, 6, 0), raw("use_declaration", 0, 6, 1)]),
        // a node that names a later node as its parent
        Some(vec![
            raw("source_file", 0, 6, 0),
            raw("use_declaration", 0, 6, 2),
            raw("use", 0, 3, 1),
        ]),
        // a node that ends behind the source
        Some(vec![raw("source_file", 0, 6, 0), raw("use_declaration", 0, 7, 0)]),
        // a node that ends before it begins
        Some(vec![raw("source_file", 0, 6, 0), raw("use_declaration", 4, 3, 0)]),
    ];
    for nodes in cases {
        match parse_nodes(nodes, source, &config) {
            Err(ParseError::TreeSitterParseError) => {}
            other => panic!("unexpected: {:?}", other.map(|f| f.len())),
        }
    }
    // a node that begins inside a character
    let nodes = Some(vec![raw("source_file", 0, 7, 0), raw("use_declaration", 5, 7, 0)]);
    assert!(matches!(
        parse_nodes(nodes, "use é;", &config),
        Err(ParseError::TreeSitterParseError)
    ));
}

#[test]
fn tree_from_reported_nodes() {
    let nodes = vec![
        raw("a", 0, 9, 7),
        raw("b", 0, 4, 0),
        raw("c", 0, 2, 1),
        raw("d", 5, 9, 0),
        raw("e", 2, 4, 1),
    ];
    let tree = SyntaxTree::from_nodes(&nodes).unwrap();
    assert_eq!(tree.len(), 5);
    assert_eq!((tree.child(0, 0), tree.child(0, 1), tree.child(0, 2)), (Some(1), Some(3), None));
    assert_eq!((tree.child(1, 0), tree.child(1, 1), tree.child(1, 2)), (Some(2), Some(4), None));
    assert_eq!(tree.child_count(3), 0);
    assert_eq!(tree.kind(4), "e");
    assert_eq!((tree.start_byte(4), tree.end_byte(4)), (2, 4));
    assert!(SyntaxTree::from_nodes(&vec![]).is_none());
    assert!(SyntaxTree::from_nodes(&vec![raw("a", 0, 1, 0), raw("b", 0, 1, 1)]).is_none());
}
