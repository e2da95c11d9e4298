use code_digest::{
    block_like_to_string, default_parse_config_for_language, extract, CustomRule,
    GoTypeDeclaration, Indentation, KeyContent, Language, ParseConfig, ParseError, ParseState,
    PythonClassDefinition, QueueItem, Selector, SelectorAction, SyntaxTree,
};

fn texts(fragments: &[KeyContent]) -> Vec<String> {
    fragments.iter().map(|f| f.content.clone()).collect()
}

fn span(source: &str, piece: &str) -> (usize, usize) {
    let start = source.find(piece).expect("piece of the source");
    (start, start + piece.len())
}

fn child(tree: &mut SyntaxTree, parent: usize, kind: &str, source: &str, piece: &str) -> usize {
    let (start, end) = span(source, piece);
    tree.add_child(parent, kind, start, end).expect("parent is a node")
}

const FUNCTIONS: &str = "  fn a() { 1 }\n\nmod m { fn hidden() { 2 } }\nuse x;  ";

/// root
///   function_item "fn a() { 1 }"   [fn, identifier, parameters, block]
///   mod_item "mod m { fn hidden() { 2 } }"
///     function_item "fn hidden() { 2 }" [.., block]
///   use_declaration "\nuse x;  " (with white space around it)
fn functions_tree() -> SyntaxTree {
    let s = FUNCTIONS;
    let mut tree = SyntaxTree::new("source_file", 0, s.len());
    let f = child(&mut tree, 0, "function_item", s, "fn a() { 1 }");
    let m = child(&mut tree, 0, "mod_item", s, "mod m { fn hidden() { 2 } }");
    let u_start = s.find("\nuse x;").unwrap();
    tree.add_child(0, "use_declaration", u_start, s.len()).unwrap();
    child(&mut tree, f, "fn", s, "fn");
    child(&mut tree, f, "identifier", s, "a");
    child(&mut tree, f, "parameters", s, "()");
    child(&mut tree, f, "block", s, "{ 1 }");
    let h = child(&mut tree, m, "function_item", s, "fn hidden() { 2 }");
    child(&mut tree, h, "block", s, "{ 2 }");
    tree
}

#[test]
fn unregistered_kind_is_pruned_with_all_below_it() {
    let tree = functions_tree();
    assert!(tree.fits(FUNCTIONS));
    let config = default_parse_config_for_language(Language::Rust);
    let result = extract(&tree, FUNCTIONS, &config).unwrap();
    assert_eq!(
        texts(&result),
        vec!["fn a() {\n    // ...\n}".to_string(), "use x;".to_string()]
    );
}

#[test]
fn registering_the_kind_lets_the_walk_descend() {
    let tree = functions_tree();
    let mut config = default_parse_config_for_language(Language::Rust);
    config.add_selector(Selector::new("mod_item", SelectorAction::SelectOnly));
    let result = extract(&tree, FUNCTIONS, &config).unwrap();
    // The children of the module wait behind the siblings of the module.
    assert_eq!(
        texts(&result),
        vec![
            "fn a() {\n    // ...\n}".to_string(),
            "use x;".to_string(),
            "{\n    // ...\n}".to_string(),
        ]
    );
}

#[test]
fn verbatim_capture_is_the_trimmed_source_text() {
    let tree = functions_tree();
    let config = default_parse_config_for_language(Language::Rust);
    let result = extract(&tree, FUNCTIONS, &config).unwrap();
    let start = FUNCTIONS.find("\nuse x;").unwrap();
    assert_eq!(result[1].content, FUNCTIONS[start..].trim());
    assert_ne!(result[1].content, &FUNCTIONS[start..]);
}

#[test]
fn extraction_is_repeatable() {
    let tree = functions_tree();
    let config = default_parse_config_for_language(Language::Rust);
    let first = extract(&tree, FUNCTIONS, &config).unwrap();
    let second = extract(&tree, FUNCTIONS, &config).unwrap();
    assert_eq!(texts(&first), texts(&second));
}

#[test]
fn empty_registry_yields_nothing() {
    let tree = functions_tree();
    let config = ParseConfig::new(Language::Rust, Indentation::default());
    assert!(extract(&tree, FUNCTIONS, &config).unwrap().is_empty());
}

#[test]
fn later_registration_replaces_the_earlier() {
    let tree = functions_tree();
    let mut config = ParseConfig::new(Language::Rust, Indentation::Spaces(2));
    config.add_selector(Selector::new("source_file", SelectorAction::SelectOnly));
    config.add_selector(Selector::new("function_item", SelectorAction::CaptureAll));
    assert!(matches!(
        config.get_selector_action("function_item"),
        Some(SelectorAction::CaptureAll)
    ));
    config.add_selector(Selector::new("function_item", SelectorAction::CaptureWithoutBlock));
    assert!(matches!(
        config.get_selector_action("function_item"),
        Some(SelectorAction::CaptureWithoutBlock)
    ));
    assert!(config.get_selector_action("use_declaration").is_none());
    let result = extract(&tree, FUNCTIONS, &config).unwrap();
    assert_eq!(texts(&result), vec!["fn a() {\n  // ...\n}".to_string()]);
}

#[test]
fn indentation_units() {
    let tree = functions_tree();
    let tabs = ParseConfig::new(Language::Go, Indentation::Tabs);
    assert_eq!(tabs.indent(), "\t");
    assert_eq!(block_like_to_string(&tree, 1, FUNCTIONS, &tabs), "fn a() {\n\t// ...\n}");
    let none = ParseConfig::new(Language::Go, Indentation::Spaces(0));
    assert_eq!(none.indent(), "");
    assert_eq!(block_like_to_string(&tree, 1, FUNCTIONS, &none), "fn a() {\n// ...\n}");
    let three = ParseConfig::new(Language::Go, Indentation::Spaces(3));
    assert_eq!(three.indent(), "   ");
    assert_eq!(Indentation::default(), Indentation::Spaces(4));
    assert_eq!(tabs.language(), Language::Go);
}

#[test]
fn node_without_a_body_is_rendered_unchanged() {
    let source = "fn declared (x: u8) ;";
    let mut tree = SyntaxTree::new("function_signature_item", 0, source.len());
    child(&mut tree, 0, "fn", source, "fn");
    child(&mut tree, 0, "identifier", source, "declared");
    child(&mut tree, 0, "parameters", source, "(x: u8)");
    child(&mut tree, 0, ";", source, ";");
    let config = ParseConfig::new(Language::Rust, Indentation::default());
    assert_eq!(block_like_to_string(&tree, 0, source, &config), source);
}

#[test]
fn kinds_that_join_tightly_get_no_space() {
    let source = "func  F [T any] (x int) (int, error) { return }";
    let mut tree = SyntaxTree::new("function_declaration", 0, source.len());
    child(&mut tree, 0, "func", source, "func");
    child(&mut tree, 0, "identifier", source, "F");
    child(&mut tree, 0, "type_parameters", source, "[T any]");
    child(&mut tree, 0, "parameter_list", source, "(x int)");
    child(&mut tree, 0, "parameter_list", source, "(int, error)");
    child(&mut tree, 0, "block", source, "{ return }");
    let config = ParseConfig::new(Language::Go, Indentation::Tabs);
    assert_eq!(
        block_like_to_string(&tree, 0, source, &config),
        "func F[T any](x int)(int, error) {\n\t// ...\n}"
    );
}

const CLASS: &str = "import os\nclass A(B):\n    x = 1\n    def f(self):\n        pass\n    def g(self):\n        pass\ndef h():\n    pass\n";

/// module
///   import_statement
///   class_definition [class, identifier, argument_list, :, block[expression_statement, function_definition f, function_definition g]]
///   function_definition h
fn class_tree() -> SyntaxTree {
    let s = CLASS;
    let mut tree = SyntaxTree::new("module", 0, s.len());
    child(&mut tree, 0, "import_statement", s, "import os");
    let class_start = s.find("class A").unwrap();
    let class_end = s.find("def h").unwrap() - 1;
    let class = tree.add_child(0, "class_definition", class_start, class_end).unwrap();
    let h = child(&mut tree, 0, "function_definition", s, "def h():\n    pass");
    child(&mut tree, class, "class", s, "class");
    child(&mut tree, class, "identifier", s, "A");
    child(&mut tree, class, "argument_list", s, "(B)");
    let body_start = s.find("x = 1").unwrap();
    let body = tree.add_child(class, "block", body_start, class_end).unwrap();
    child(&mut tree, body, "expression_statement", s, "x = 1");
    let f = child(&mut tree, body, "function_definition", s, "def f(self):\n        pass");
    let g = child(&mut tree, body, "function_definition", s, "def g(self):\n        pass");
    for (node, name) in [(f, "f"), (g, "g")] {
        child(&mut tree, node, "def", s, "def");
        let (start, _) = span(s, &format!("def {}", name));
        tree.add_child(node, "identifier", start + 4, start + 5).unwrap();
        let (start, _) = span(s, &format!("def {}(self)", name));
        tree.add_child(node, "parameters", start + 5, start + 11).unwrap();
        let (start, end) = span(s, &format!("def {}(self):\n        pass", name));
        tree.add_child(node, "block", end - 4, end).unwrap();
        assert!(start < end);
    }
    child(&mut tree, h, "def", s, "def");
    let (start, end) = span(s, "def h():\n    pass");
    tree.add_child(h, "identifier", start + 4, start + 5).unwrap();
    tree.add_child(h, "parameters", start + 5, start + 7).unwrap();
    tree.add_child(h, "block", end - 4, end).unwrap();
    tree
}

#[test]
fn class_with_its_methods_is_one_fragment() {
    let tree = class_tree();
    assert!(tree.fits(CLASS));
    let config = default_parse_config_for_language(Language::Python);
    let result = extract(&tree, CLASS, &config).unwrap();
    assert_eq!(
        texts(&result),
        vec![
            "import os".to_string(),
            "class A(B):\n    \ndef f(self) {\n    // ...\n}\ndef g(self) {\n    // ...\n}"
                .to_string(),
            "def h() {\n    // ...\n}".to_string(),
        ]
    );
}

#[test]
fn class_without_a_body_yields_nothing() {
    let source = "class A";
    let mut tree = SyntaxTree::new("module", 0, source.len());
    let class = child(&mut tree, 0, "class_definition", source, "class A");
    child(&mut tree, class, "class", source, "class");
    child(&mut tree, class, "identifier", source, "A");
    let config = default_parse_config_for_language(Language::Python);
    assert!(extract(&tree, source, &config).unwrap().is_empty());
}

#[test]
fn class_body_before_the_class_fails() {
    let source = "xx class A: pass";
    let mut tree = SyntaxTree::new("module", 0, source.len());
    let class = child(&mut tree, 0, "class_definition", source, "class A: pass");
    tree.add_child(class, "block", 0, 2).unwrap();
    let config = default_parse_config_for_language(Language::Python);
    match extract(&tree, source, &config) {
        Err(ParseError::CustomActionFailed(reason)) => {
            assert_eq!(reason, "class_definition custom action failed")
        }
        other => panic!("unexpected: {:?}", other.map(|f| texts(&f))),
    }
}

#[test]
fn rules_apply_to_a_state_directly() {
    let tree = class_tree();
    let mut state = ParseState::new();
    assert!(!state.has_work());
    assert!(!state.is_accumulating());
    state.push_back(QueueItem::Node(3, false));
    let returned = PythonClassDefinition.apply(&tree, 2, CLASS, &mut state).unwrap();
    assert_eq!(returned, "class A(B):\n    ");
    // the members of the body, accumulating, then the sentinel, then what waited
    let body = tree.child(2, 3).unwrap();
    let mut queue = Vec::new();
    while let Some(item) = state.pop_front() {
        queue.push(item);
    }
    assert_eq!(
        queue,
        vec![
            QueueItem::Node(tree.child(body, 0).unwrap(), true),
            QueueItem::Node(tree.child(body, 1).unwrap(), true),
            QueueItem::Node(tree.child(body, 2).unwrap(), true),
            QueueItem::Sentinel,
            QueueItem::Node(3, false),
        ]
    );
    state.finalize_accumulator();
    assert_eq!(texts(&state.into_result()), vec!["class A(B):\n    ".to_string()]);
}

#[test]
fn sentinel_closes_one_fragment_even_when_empty() {
    let mut state = ParseState::new();
    state.finalize_accumulator();
    state.set_accumulating(true);
    state.update_content("a".to_string());
    state.accumulate("b".to_string());
    state.finalize_accumulator();
    state.set_accumulating(false);
    state.update_content("c".to_string());
    assert_eq!(
        texts(&state.into_result()),
        vec!["".to_string(), "a\nb".to_string(), "c".to_string()]
    );
}

const TYPES: &str = "type A struct { x int }\ntype B interface { F() }\ntype C int\ntype (\n D int\n)\n";

fn types_tree() -> SyntaxTree {
    let s = TYPES;
    let mut tree = SyntaxTree::new("source_file", 0, s.len());
    for (text, name, shape_kind, shape) in [
        ("type A struct { x int }", "A", "struct_type", "struct { x int }"),
        ("type B interface { F() }", "B", "interface_type", "interface { F() }"),
        ("type C int", "C", "type_identifier", "int"),
    ] {
        let decl = child(&mut tree, 0, "type_declaration", s, text);
        let (start, end) = span(s, text);
        tree.add_child(decl, "type", start, start + 4).unwrap();
        let spec = tree.add_child(decl, "type_spec", start + 5, end).unwrap();
        tree.add_child(spec, "type_identifier", start + 5, start + 5 + name.len()).unwrap();
        let (shape_start, shape_end) = span(&s[start..], shape);
        tree.add_child(spec, shape_kind, start + shape_start, start + shape_end).unwrap();
    }
    tree
}

#[test]
fn type_declarations_yield_one_fragment_each() {
    let tree = types_tree();
    let config = default_parse_config_for_language(Language::Go);
    let result = extract(&tree, TYPES, &config).unwrap();
    assert_eq!(
        texts(&result),
        vec![
            "type A struct { x int }".to_string(),
            "type B interface { F() }".to_string(),
            "".to_string(),
        ]
    );
}

#[test]
fn type_declaration_of_another_shape_fails_the_extraction() {
    let s = TYPES;
    let mut tree = types_tree();
    let decl = child(&mut tree, 0, "type_declaration", s, "type (\n D int\n)");
    child(&mut tree, decl, "type", s, "type");
    let (start, _) = span(s, "(\n D");
    tree.add_child(decl, "(", start, start + 1).unwrap();
    let config = default_parse_config_for_language(Language::Go);
    match extract(&tree, s, &config) {
        Err(ParseError::CustomActionFailed(reason)) => {
            assert_eq!(reason, "type_declaration custom action failed")
        }
        other => panic!("unexpected: {:?}", other.map(|f| texts(&f))),
    }
    let mut state = ParseState::new();
    assert!(GoTypeDeclaration.apply(&tree, decl, s, &mut state).is_err());
    assert!(state.into_result().is_empty());
}

struct Shout;

impl CustomRule for Shout {
    fn apply(
        &self,
        tree: &SyntaxTree,
        node: usize,
        source: &str,
        state: &mut ParseState,
    ) -> Result<String, ParseError> {
        let text = tree.text(node, source).to_uppercase();
        state.update_content(text.clone());
        let mut k = tree.child_count(node);
        while k > 0 {
            k -= 1;
            state.push_front(QueueItem::Node(tree.child(node, k).unwrap(), false));
        }
        Ok(text)
    }
}

#[test]
fn a_rule_of_the_caller_emits_and_enqueues() {
    let tree = functions_tree();
    let mut config = default_parse_config_for_language(Language::Rust);
    config.add_selector(Selector::new("mod_item", SelectorAction::Custom(Box::new(Shout))));
    let result = extract(&tree, FUNCTIONS, &config).unwrap();
    // what the rule puts to the front is visited before the siblings that wait
    assert_eq!(
        texts(&result),
        vec![
            "fn a() {\n    // ...\n}".to_string(),
            "MOD M { FN HIDDEN() { 2 } }".to_string(),
            "{\n    // ...\n}".to_string(),
            "use x;".to_string(),
        ]
    );
}

#[test]
fn tree_accessors() {
    let mut tree = SyntaxTree::new("root", 0, 10);
    assert_eq!(tree.len(), 1);
    assert_eq!(tree.add_child(1, "x", 0, 1), None);
    assert_eq!(tree.len(), 1);
    assert_eq!(tree.add_child(0, "a", 1, 3), Some(1));
    assert_eq!(tree.add_child(0, "b", 3, 5), Some(2));
    assert_eq!(tree.add_child(1, "c", 1, 2), Some(3));
    assert_eq!(tree.len(), 4);
    assert_eq!(tree.kind(3), "c");
    assert_eq!((tree.start_byte(2), tree.end_byte(2)), (3, 5));
    assert_eq!(tree.child_count(0), 2);
    assert_eq!(tree.child(0, 1), Some(2));
    assert_eq!(tree.child(0, 2), None);
    assert_eq!(tree.child(9, 0), None);
    assert_eq!(tree.text(1, "0123456789"), "12");
    assert!(tree.fits("0123456789"));
    assert!(!tree.fits("012345678"));
    // a range that cuts a character in two does not fit
    assert!(!tree.fits("0é2345678"));
}

struct Refuse;

impl CustomRule for Refuse {
    fn apply(
        &self,
        tree: &SyntaxTree,
        node: usize,
        _source: &str,
        _state: &mut ParseState,
    ) -> Result<String, ParseError> {
        Err(ParseError::CustomActionFailed(format!("refused {}", tree.kind(node))))
    }
}

#[test]
fn the_error_of_a_rule_of_the_caller_is_returned_as_it_is() {
    let tree = functions_tree();
    let mut config = default_parse_config_for_language(Language::Rust);
    config.add_selector(Selector::new("mod_item", SelectorAction::Custom(Box::new(Refuse))));
    match extract(&tree, FUNCTIONS, &config) {
        Err(ParseError::CustomActionFailed(reason)) => assert_eq!(reason, "refused mod_item"),
        other => panic!("unexpected: {:?}", other.map(|f| texts(&f))),
    }
    // a rule that is registered for a kind that the walk does not reach is not asked
    let mut config = default_parse_config_for_language(Language::Rust);
    config.add_selector(Selector::new("block", SelectorAction::Custom(Box::new(Refuse))));
    let result = extract(&tree, FUNCTIONS, &config).unwrap();
    assert_eq!(
        texts(&result),
        vec!["fn a() {\n    // ...\n}".to_string(), "use x;".to_string()]
    );
}
