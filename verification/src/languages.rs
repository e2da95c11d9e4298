//! The registries that the supported languages ship with, and the custom
//! rules that they use.

use vstd::prelude::*;
use crate::selector::{
    CustomRule,
    Indentation,
    Language,
    ParseConfig,
    ParseError,
    ParseErrorView,
    RuleOutcome,
    Selector,
    SelectorAction,
};
use crate::state::{
    child_items,
    children_weight,
    emit,
    lemma_child_items_weight,
    lemma_queue_weight_concat,
    lemma_node_weight_positive,
    lemma_queue_weight_single,
    node_weight,
    queue_weight,
    queue_within,
    ParseState,
    QueueItem,
    StateView,
};
use crate::text::{byte_slice, is_byte_range, slice_of, str_eq};
use crate::tree::{node_text, well_formed, NodeView, SyntaxTree};

verus! {

/// The rule for a type declaration of Go. The declared type is the second
/// child of the second child of the declaration. Where it is a struct or an
/// interface, the whole declaration is emitted as it stands in the source;
/// where it is anything else, an empty text is emitted, so that every
/// declaration yields one fragment. A declaration without that child fails.
pub struct GoTypeDeclaration;

/// Whether a type of this kind is declared with its members.
pub open spec fn is_member_type(kind: Seq<char>) -> bool {
    kind == "struct_type"@ || kind == "interface_type"@
}

/// Whether `node` has a second child that has a second child.
pub open spec fn has_declared_type(tree: Seq<NodeView>, node: int) -> bool {
    &&& tree[node].children.len() > 1
    &&& tree[tree[node].children[1] as int].children.len() > 1
}

/// The second child of the second child of `node`.
pub open spec fn declared_type(tree: Seq<NodeView>, node: int) -> int {
    tree[tree[node].children[1] as int].children[1] as int
}

/// What a type declaration yields: its own text for a struct or an
/// interface, the empty text for any other type.
pub open spec fn type_declaration_text(tree: Seq<NodeView>, node: int, source: Seq<char>) -> Seq<
    char,
> {
    if is_member_type(tree[declared_type(tree, node)].kind) {
        node_text(tree, node, source)
    } else {
        Seq::empty()
    }
}

impl CustomRule for GoTypeDeclaration {
    open spec fn has_model(&self) -> bool {
        true
    }

    open spec fn outcome(
        &self,
        tree: Seq<NodeView>,
        node: int,
        source: Seq<char>,
        state: StateView,
    ) -> RuleOutcome {
        if has_declared_type(tree, node) {
            RuleOutcome {
                result: Ok(type_declaration_text(tree, node, source)),
                state: emit(state, type_declaration_text(tree, node, source)),
            }
        } else {
            RuleOutcome {
                result: Err(
                    ParseErrorView::CustomActionFailed("type_declaration custom action failed"@),
                ),
                state,
            }
        }
    }

    fn apply(&self, tree: &SyntaxTree, node: usize, source: &str, state: &mut ParseState) -> (r:
        Result<String, ParseError>) {
        proof {
            use_type_invariant(tree);
        }
        if let Some(type_spec) = tree.child(node, 1) {
            if let Some(shape) = tree.child(type_spec, 1) {
                let kind = tree.kind(shape);
                let content = if str_eq(kind, "struct_type") || str_eq(kind, "interface_type") {
                    tree.text(node, source).to_owned()
                } else {
                    String::new()
                };
                state.update_content(content.clone());
                proof {
                    lemma_node_weight_positive(tree@, node as int);
                }
                return Ok(content);
            }
        }
        Err(ParseError::CustomActionFailed("type_declaration custom action failed".to_owned()))
    }
}

/// The rule for a class definition of Python. The header of the class, the
/// source from the start of the class up to the start of its body, opens an
/// accumulated fragment; the children of the body are visited next, each of
/// them accumulating, and a sentinel behind them closes the fragment. So a
/// class with its methods becomes one fragment. A class without a body
/// yields nothing, and a body that starts before its class fails.
pub struct PythonClassDefinition;

/// The position among the children of `node` of the first that is a body,
/// or the number of children where none is.
pub open spec fn first_block(tree: Seq<NodeView>, node: int, from: int) -> int
    decreases tree[node].children.len() - from,
{
    if from < 0 || from >= tree[node].children.len() {
        tree[node].children.len() as int
    } else if crate::render::is_block_kind(tree[tree[node].children[from] as int].kind) {
        from
    } else {
        first_block(tree, node, from + 1)
    }
}

/// The header of a class whose body is `body`.
pub open spec fn class_header(tree: Seq<NodeView>, node: int, body: int, source: Seq<char>) -> Seq<
    char,
> {
    byte_slice(source, tree[node].start_byte as int, tree[body].start_byte as int)
}

impl CustomRule for PythonClassDefinition {
    open spec fn has_model(&self) -> bool {
        true
    }

    open spec fn outcome(
        &self,
        tree: Seq<NodeView>,
        node: int,
        source: Seq<char>,
        state: StateView,
    ) -> RuleOutcome {
        let at = first_block(tree, node, 0);
        if at >= tree[node].children.len() {
            RuleOutcome { result: Ok(Seq::empty()), state }
        } else {
            let body = tree[node].children[at] as int;
            if tree[node].start_byte <= tree[body].start_byte {
                let header = class_header(tree, node, body, source);
                RuleOutcome {
                    result: Ok(header),
                    state: StateView {
                        queue: child_items(tree, body, tree[body].children.len() as int, true)
                            + seq![QueueItem::Sentinel] + state.queue,
                        accumulator: state.accumulator.push(header),
                        ..state
                    },
                }
            } else {
                RuleOutcome {
                    result: Err(
                        ParseErrorView::CustomActionFailed(
                            "class_definition custom action failed"@,
                        ),
                    ),
                    state,
                }
            }
        }
    }

    fn apply(&self, tree: &SyntaxTree, node: usize, source: &str, state: &mut ParseState) -> (r:
        Result<String, ParseError>) {
        proof {
            use_type_invariant(tree);
        }
        let count = tree.child_count(node);
        let mut at: usize = 0;
        let mut found = false;
        while at < count && !found
            invariant
                node < tree@.len(),
                well_formed(tree@),
                count == tree@[node as int].children.len(),
                0 <= at <= count,
                first_block(tree@, node as int, 0) == first_block(tree@, node as int, at as int),
                found ==> at < count && crate::render::is_block_kind(
                    tree@[tree@[node as int].children[at as int] as int].kind,
                ),
            decreases count - at, if found { 0int } else { 1int },
        {
            let child = tree.child(node, at).unwrap();
            if str_eq(tree.kind(child), "block") {
                found = true;
            } else {
                at += 1;
            }
        }
        if at >= count {
            return Ok(String::new());
        }
        let body = tree.child(node, at).unwrap();
        let start = tree.start_byte(node);
        let end = tree.start_byte(body);
        if start > end {
            return Err(
                ParseError::CustomActionFailed("class_definition custom action failed".to_owned()),
            );
        }
        let header = slice_of(source, start, end).to_owned();
        state.accumulate(header.clone());
        state.push_front(QueueItem::Sentinel);
        let ghost waiting = old(state)@.queue;
        let ghost items = child_items(
            tree@,
            body as int,
            tree@[body as int].children.len() as int,
            true,
        );
        let members = tree.child_count(body);
        let mut k: usize = members;
        while k > 0
            invariant
                body < tree@.len(),
                members == tree@[body as int].children.len(),
                items == child_items(tree@, body as int, members as int, true),
                0 <= k <= members,
                state@ == (StateView {
                    queue: items.skip(k as int) + seq![QueueItem::Sentinel] + waiting,
                    accumulator: old(state)@.accumulator.push(header@),
                    ..old(state)@
                }),
            decreases k,
        {
            k -= 1;
            let member = tree.child(body, k).unwrap();
            state.push_front(QueueItem::Node(member, true));
            proof {
                assert(seq![QueueItem::Node(member, true)] + (items.skip(k + 1) + seq![
                    QueueItem::Sentinel,
                ] + waiting) =~= items.skip(k as int) + seq![QueueItem::Sentinel] + waiting);
            }
        }
        proof {
            assert(items.skip(0) =~= items);
            lemma_class_body_weighs_less(tree@, node as int, at as int, waiting);
        }
        Ok(header)
    }
}

/// A child weighs no more than the children of its parent together.
proof fn lemma_child_weight_bound(tree: Seq<NodeView>, node: int, index: int, upto: int)
    requires
        well_formed(tree),
        0 <= node < tree.len(),
        0 <= index < upto <= tree[node].children.len(),
    ensures
        node_weight(tree, tree[node].children[index] as int) <= children_weight(
            tree,
            node,
            upto as nat,
        ),
    decreases upto,
{
    if index < upto - 1 {
        lemma_child_weight_bound(tree, node, index, upto - 1);
    }
}

/// The members of a class body with the sentinel behind them are less work
/// than the class, and all of them are nodes of the tree.
proof fn lemma_class_body_weighs_less(
    tree: Seq<NodeView>,
    node: int,
    at: int,
    waiting: Seq<QueueItem>,
)
    requires
        well_formed(tree),
        0 <= node < tree.len(),
        0 <= at < tree[node].children.len(),
        queue_within(tree, waiting),
    ensures
        ({
            let body = tree[node].children[at] as int;
            let queue = child_items(tree, body, tree[body].children.len() as int, true) + seq![
                QueueItem::Sentinel,
            ] + waiting;
            &&& queue_within(tree, queue)
            &&& queue_weight(tree, queue) < queue_weight(tree, waiting) + node_weight(tree, node)
        }),
{
    let body = tree[node].children[at] as int;
    let items = child_items(tree, body, tree[body].children.len() as int, true);
    let front = items + seq![QueueItem::Sentinel];
    lemma_child_items_weight(tree, body, tree[body].children.len() as int, true);
    lemma_queue_weight_single(tree, QueueItem::Sentinel);
    lemma_queue_weight_concat(tree, items, seq![QueueItem::Sentinel]);
    lemma_queue_weight_concat(tree, front, waiting);
    lemma_child_weight_bound(tree, node, at, tree[node].children.len() as int);
}

/// Whether a language ships with a registry.
pub open spec fn has_default_config(language: Language) -> bool {
    language == Language::Go || language == Language::Rust || language == Language::Python
}

/// Tests whether a language ships with a registry.
pub fn ships_default_config(language: Language) -> (r: bool)
    ensures
        r == has_default_config(language),
{
    match language {
        Language::Go | Language::Rust | Language::Python => true,
        _ => false,
    }
}

/// The indentation that the registry of a language renders elided bodies with.
pub open spec fn default_indentation(language: Language) -> Indentation {
    if language == Language::Go {
        Indentation::Tabs
    } else {
        Indentation::Spaces(4)
    }
}

/// The action on a type declaration of Go.
pub open spec fn go_type_action() -> SelectorAction {
    SelectorAction::Custom(Box::new(GoTypeDeclaration))
}

/// The action on a class definition of Python.
pub open spec fn python_class_action() -> SelectorAction {
    SelectorAction::Custom(Box::new(PythonClassDefinition))
}

/// The registry that Go ships with.
pub open spec fn go_registry() -> Map<Seq<char>, SelectorAction> {
    Map::<Seq<char>, SelectorAction>::empty().insert(
        "source_file"@,
        SelectorAction::SelectOnly,
    ).insert("import_declaration"@, SelectorAction::CaptureAll).insert(
        "function_declaration"@,
        SelectorAction::CaptureWithoutBlock,
    ).insert("method_declaration"@, SelectorAction::CaptureWithoutBlock).insert(
        "type_declaration"@,
        go_type_action(),
    )
}

/// The registry that Rust ships with.
pub open spec fn rust_registry() -> Map<Seq<char>, SelectorAction> {
    Map::<Seq<char>, SelectorAction>::empty().insert(
        "source_file"@,
        SelectorAction::SelectOnly,
    ).insert("use_declaration"@, SelectorAction::CaptureAll).insert(
        "struct_item"@,
        SelectorAction::CaptureAll,
    ).insert("enum_item"@, SelectorAction::CaptureAll).insert(
        "type_item"@,
        SelectorAction::CaptureAll,
    ).insert("function_item"@, SelectorAction::CaptureWithoutBlock).insert(
        "function_signature_item"@,
        SelectorAction::CaptureWithoutBlock,
    )
}

/// The registry that Python ships with.
pub open spec fn python_registry() -> Map<Seq<char>, SelectorAction> {
    Map::<Seq<char>, SelectorAction>::empty().insert("module"@, SelectorAction::SelectOnly).insert(
        "future_import_statement"@,
        SelectorAction::CaptureAll,
    ).insert("import_from_statement"@, SelectorAction::CaptureAll).insert(
        "import_statement"@,
        SelectorAction::CaptureAll,
    ).insert("function_definition"@, SelectorAction::CaptureWithoutBlock).insert(
        "class_definition"@,
        python_class_action(),
    )
}

/// Whether the rule of an action is the rule for a type declaration of Go.
pub open spec fn is_go_type_rule(action: SelectorAction) -> bool {
    match action {
        SelectorAction::Custom(rule) => {
            &&& rule.has_model()
            &&& forall|tree: Seq<NodeView>, node: int, source: Seq<char>, state: StateView|
                #[trigger] rule.outcome(tree, node, source, state) == GoTypeDeclaration.outcome(
                    tree,
                    node,
                    source,
                    state,
                )
        },
        _ => false,
    }
}

/// Whether the rule of an action is the rule for a class definition of
/// Python.
pub open spec fn is_python_class_rule(action: SelectorAction) -> bool {
    match action {
        SelectorAction::Custom(rule) => {
            &&& rule.has_model()
            &&& forall|tree: Seq<NodeView>, node: int, source: Seq<char>, state: StateView|
                #[trigger] rule.outcome(tree, node, source, state)
                    == PythonClassDefinition.outcome(tree, node, source, state)
        },
        _ => false,
    }
}

/// What registering an action does to a table: its kind maps to it, and
/// every other kind maps to what it mapped to before.
proof fn lemma_registered(
    table: Map<Seq<char>, SelectorAction>,
    kind: Seq<char>,
    action: SelectorAction,
)
    ensures
        table.insert(kind, action).dom() == table.dom().insert(kind),
        table.insert(kind, action)[kind] == action,
        forall|other: Seq<char>|
            other != kind && table.contains_key(other) ==> #[trigger] table.insert(
                kind,
                action,
            )[other] == table[other],
{
}

/// What the registry of Go holds, kind by kind.
pub proof fn lemma_go_registry()
    ensures
        go_registry().dom() == set![
            "source_file"@,
            "import_declaration"@,
            "function_declaration"@,
            "method_declaration"@,
            "type_declaration"@,
        ],
        go_registry()["source_file"@] is SelectOnly,
        go_registry()["import_declaration"@] is CaptureAll,
        go_registry()["function_declaration"@] is CaptureWithoutBlock,
        go_registry()["method_declaration"@] is CaptureWithoutBlock,
        is_go_type_rule(go_registry()["type_declaration"@]),
        crate::selector::has_models(go_registry()),
{
    reveal_strlit("source_file");
    reveal_strlit("import_declaration");
    reveal_strlit("function_declaration");
    reveal_strlit("method_declaration");
    reveal_strlit("type_declaration");
    assert("source_file"@[0] == 's');
    assert("import_declaration"@[0] == 'i');
    assert("function_declaration"@[0] == 'f');
    assert("method_declaration"@[0] == 'm');
    assert("type_declaration"@[0] == 't');
    let builtin = Map::<Seq<char>, SelectorAction>::empty().insert(
        "source_file"@,
        SelectorAction::SelectOnly,
    ).insert("import_declaration"@, SelectorAction::CaptureAll).insert(
        "function_declaration"@,
        SelectorAction::CaptureWithoutBlock,
    ).insert("method_declaration"@, SelectorAction::CaptureWithoutBlock);
    lemma_registered(builtin, "type_declaration"@, go_type_action());
    assert(go_registry().dom() =~= set![
        "source_file"@,
        "import_declaration"@,
        "function_declaration"@,
        "method_declaration"@,
        "type_declaration"@,
    ]);
}

/// What the registry of Rust holds, kind by kind.
pub proof fn lemma_rust_registry()
    ensures
        rust_registry().dom() == set![
            "source_file"@,
            "use_declaration"@,
            "struct_item"@,
            "enum_item"@,
            "type_item"@,
            "function_item"@,
            "function_signature_item"@,
        ],
        rust_registry()["source_file"@] is SelectOnly,
        rust_registry()["use_declaration"@] is CaptureAll,
        rust_registry()["struct_item"@] is CaptureAll,
        rust_registry()["enum_item"@] is CaptureAll,
        rust_registry()["type_item"@] is CaptureAll,
        rust_registry()["function_item"@] is CaptureWithoutBlock,
        rust_registry()["function_signature_item"@] is CaptureWithoutBlock,
        crate::engine::has_no_rules(rust_registry()),
        crate::selector::has_models(rust_registry()),
{
    reveal_strlit("source_file");
    reveal_strlit("use_declaration");
    reveal_strlit("struct_item");
    reveal_strlit("enum_item");
    reveal_strlit("type_item");
    reveal_strlit("function_item");
    reveal_strlit("function_signature_item");
    assert("source_file"@.len() == 11);
    assert("use_declaration"@.len() == 15);
    assert("struct_item"@[1] == 't');
    assert("source_file"@[1] == 'o');
    assert("enum_item"@.len() == 9);
    assert("type_item"@[0] == 't');
    assert("enum_item"@[0] == 'e');
    assert("function_item"@.len() == 13);
    assert("function_signature_item"@.len() == 23);
    assert(rust_registry().dom() =~= set![
        "source_file"@,
        "use_declaration"@,
        "struct_item"@,
        "enum_item"@,
        "type_item"@,
        "function_item"@,
        "function_signature_item"@,
    ]);
}

/// What the registry of Python holds, kind by kind.
pub proof fn lemma_python_registry()
    ensures
        python_registry().dom() == set![
            "module"@,
            "future_import_statement"@,
            "import_from_statement"@,
            "import_statement"@,
            "function_definition"@,
            "class_definition"@,
        ],
        python_registry()["module"@] is SelectOnly,
        python_registry()["future_import_statement"@] is CaptureAll,
        python_registry()["import_from_statement"@] is CaptureAll,
        python_registry()["import_statement"@] is CaptureAll,
        python_registry()["function_definition"@] is CaptureWithoutBlock,
        is_python_class_rule(python_registry()["class_definition"@]),
        crate::selector::has_models(python_registry()),
{
    reveal_strlit("module");
    reveal_strlit("future_import_statement");
    reveal_strlit("import_from_statement");
    reveal_strlit("import_statement");
    reveal_strlit("function_definition");
    reveal_strlit("class_definition");
    assert("module"@.len() == 6);
    assert("future_import_statement"@.len() == 23);
    assert("import_from_statement"@.len() == 21);
    assert("import_statement"@.len() == 16);
    assert("function_definition"@.len() == 19);
    assert("class_definition"@[0] == 'c');
    assert("import_statement"@[0] == 'i');
    let builtin = Map::<Seq<char>, SelectorAction>::empty().insert(
        "module"@,
        SelectorAction::SelectOnly,
    ).insert("future_import_statement"@, SelectorAction::CaptureAll).insert(
        "import_from_statement"@,
        SelectorAction::CaptureAll,
    ).insert("import_statement"@, SelectorAction::CaptureAll).insert(
        "function_definition"@,
        SelectorAction::CaptureWithoutBlock,
    );
    lemma_registered(builtin, "class_definition"@, python_class_action());
    assert(python_registry().dom() =~= set![
        "module"@,
        "future_import_statement"@,
        "import_from_statement"@,
        "import_statement"@,
        "function_definition"@,
        "class_definition"@,
    ]);
}

/// The registry that a language ships with.
pub open spec fn default_registry(language: Language) -> Map<Seq<char>, SelectorAction> {
    match language {
        Language::Go => go_registry(),
        Language::Rust => rust_registry(),
        Language::Python => python_registry(),
        _ => Map::empty(),
    }
}

/// The configuration that a language ships with: its registry, and tabs for
/// Go, four spaces for Rust and Python.
pub fn default_parse_config_for_language(language: Language) -> (config: ParseConfig)
    requires
        has_default_config(language),
    ensures
        config@.language == language,
        config@.indent == crate::selector::indent_text(default_indentation(language)),
        config@.registry == default_registry(language),
        crate::selector::has_models(config@.registry),
{
    match language {
        Language::Go => {
            let mut config = ParseConfig::new(language, Indentation::Tabs);
            config.add_selector(Selector::new("source_file", SelectorAction::SelectOnly));
            config.add_selector(Selector::new("import_declaration", SelectorAction::CaptureAll));
            config.add_selector(
                Selector::new("function_declaration", SelectorAction::CaptureWithoutBlock),
            );
            config.add_selector(
                Selector::new("method_declaration", SelectorAction::CaptureWithoutBlock),
            );
            config.add_selector(
                Selector::new(
                    "type_declaration",
                    SelectorAction::Custom(Box::new(GoTypeDeclaration)),
                ),
            );
            config
        },
        Language::Rust => {
            let mut config = ParseConfig::new(language, Indentation::Spaces(4));
            config.add_selector(Selector::new("source_file", SelectorAction::SelectOnly));
            config.add_selector(Selector::new("use_declaration", SelectorAction::CaptureAll));
            config.add_selector(Selector::new("struct_item", SelectorAction::CaptureAll));
            config.add_selector(Selector::new("enum_item", SelectorAction::CaptureAll));
            config.add_selector(Selector::new("type_item", SelectorAction::CaptureAll));
            config.add_selector(
                Selector::new("function_item", SelectorAction::CaptureWithoutBlock),
            );
            config.add_selector(
                Selector::new("function_signature_item", SelectorAction::CaptureWithoutBlock),
            );
            config
        },
        _ => {
            let mut config = ParseConfig::new(language, Indentation::Spaces(4));
            config.add_selector(Selector::new("module", SelectorAction::SelectOnly));
            config.add_selector(
                Selector::new("future_import_statement", SelectorAction::CaptureAll),
            );
            config.add_selector(Selector::new("import_from_statement", SelectorAction::CaptureAll));
            config.add_selector(Selector::new("import_statement", SelectorAction::CaptureAll));
            config.add_selector(
                Selector::new("function_definition", SelectorAction::CaptureWithoutBlock),
            );
            config.add_selector(
                Selector::new(
                    "class_definition",
                    SelectorAction::Custom(Box::new(PythonClassDefinition)),
                ),
            );
            config
        },
    }
}

} // verus!
