//! The selector registry: for each language a table from node kinds to the
//! action that the extraction takes on a node of that kind, and the unit of
//! indentation that elided bodies are rendered with.

use vstd::prelude::*;
use crate::state::{node_weight, queue_weight, queue_within, ParseState, StateView};
use crate::text::{repeat, repeated, str_eq};
use crate::tree::{fits, NodeView, SyntaxTree};

verus! {

/// The languages that a grammar can be asked for.
#[derive(Clone, Copy, Debug, PartialEq, Eq, Structural)]
pub enum Language {
    Go,
    Hcl,
    Java,
    Python,
    Rust,
}

/// Why an extraction failed.
#[derive(Debug)]
pub enum ParseError {
    /// A custom rule found the tree in a shape that it does not handle; the
    /// text says which rule.
    CustomActionFailed(String),
    /// The grammar could not be used, or what it reported is no tree over
    /// the source.
    TreeSitterParseError,
}

/// The model of an extraction error.
pub enum ParseErrorView {
    CustomActionFailed(Seq<char>),
    TreeSitterParseError,
}

impl View for ParseError {
    type V = ParseErrorView;

    open spec fn view(&self) -> ParseErrorView {
        match self {
            ParseError::CustomActionFailed(reason) => ParseErrorView::CustomActionFailed(reason@),
            ParseError::TreeSitterParseError => ParseErrorView::TreeSitterParseError,
        }
    }
}

/// The message that describes an extraction error to a user.
pub open spec fn parse_error_text(error: ParseErrorView) -> Seq<char> {
    match error {
        ParseErrorView::CustomActionFailed(_) => "custom selector action failed"@,
        ParseErrorView::TreeSitterParseError => "tree-sitter parse error"@,
    }
}

impl ParseError {
    /// The message that describes the error to a user.
    pub fn message(&self) -> (text: String)
        ensures
            text@ == parse_error_text(self@),
    {
        match self {
            ParseError::CustomActionFailed(_) => "custom selector action failed".to_owned(),
            ParseError::TreeSitterParseError => "tree-sitter parse error".to_owned(),
        }
    }
}

/// What a custom rule leaves behind: what it returns, and the state.
pub struct RuleOutcome {
    pub result: Result<Seq<char>, ParseErrorView>,
    pub state: StateView,
}

/// The model of what a rule returns.
pub open spec fn rule_result(r: Result<String, ParseError>) -> Result<Seq<char>, ParseErrorView> {
    match r {
        Ok(text) => Ok(text@),
        Err(e) => Err(e@),
    }
}

/// What the engine asks of the state that a custom rule leaves after a visit
/// of `node`: the nodes that wait are nodes of the tree, and what the rule
/// added to the queue is less work than the node itself stood for.
pub open spec fn keeps_walk_finite(
    tree: Seq<NodeView>,
    node: int,
    before: StateView,
    after: StateView,
) -> bool {
    &&& queue_within(tree, after.queue)
    &&& queue_weight(tree, after.queue) < queue_weight(tree, before.queue) + node_weight(
        tree,
        node,
    )
}

/// A rule that an action runs on a node in place of the built-in captures.
///
/// A rule sees the tree, the node, the source and the state of the
/// extraction. It decides itself what it emits, through the state, and it may
/// put further work into the queue. The text that it returns is what it
/// produced; the engine does not emit it again.
///
/// A rule may come with a model, a function that says what the rule does.
/// The extraction states its result for the rules that have one. Of every
/// rule the engine asks that it keeps the walk finite.
pub trait CustomRule {
    /// Whether `outcome` is a model of the rule.
    open spec fn has_model(&self) -> bool {
        false
    }

    /// What the rule does, as a function of what it is given, where the rule
    /// has a model.
    open spec fn outcome(
        &self,
        tree: Seq<NodeView>,
        node: int,
        source: Seq<char>,
        state: StateView,
    ) -> RuleOutcome {
        RuleOutcome { result: Ok(Seq::empty()), state }
    }

    /// Runs the rule on `node`.
    fn apply(&self, tree: &SyntaxTree, node: usize, source: &str, state: &mut ParseState) -> (r:
        Result<String, ParseError>)
        requires
            node < tree@.len(),
            fits(tree@, source@),
            queue_within(tree@, old(state)@.queue),
        ensures
            self.has_model() ==> rule_result(r) == self.outcome(
                tree@,
                node as int,
                source@,
                old(state)@,
            ).result,
            self.has_model() ==> final(state)@ == self.outcome(
                tree@,
                node as int,
                source@,
                old(state)@,
            ).state,
            r is Ok ==> keeps_walk_finite(tree@, node as int, old(state)@, final(state)@),
    ;
}

/// What the extraction does with a node of a registered kind.
pub enum SelectorAction {
    /// The node is not emitted; its children are visited.
    SelectOnly,
    /// The node is emitted with its body replaced by a placeholder.
    CaptureWithoutBlock,
    /// The node is emitted as it stands in the source, trimmed.
    CaptureAll,
    /// A rule decides.
    Custom(Box<dyn CustomRule>),
}

/// Whether every rule of a registry has a model.
pub open spec fn has_models(registry: Map<Seq<char>, SelectorAction>) -> bool {
    forall|kind: Seq<char>|
        registry.contains_key(kind) ==> ((#[trigger] registry[kind]) matches SelectorAction::Custom(
            rule,
        ) ==> rule.has_model())
}

/// One entry of the registry.
pub struct Selector {
    pub node_kind: String,
    pub action: SelectorAction,
}

impl Selector {
    /// The entry that maps `node_kind` to `action`.
    pub fn new(node_kind: &str, action: SelectorAction) -> (selector: Selector)
        ensures
            selector.node_kind@ == node_kind@,
            selector.action == action,
    {
        Selector { node_kind: node_kind.to_owned(), action }
    }
}

/// The unit of indentation inside an elided body.
#[derive(Clone, Copy, Debug, PartialEq, Eq, Structural)]
pub enum Indentation {
    Tabs,
    Spaces(usize),
}

impl Default for Indentation {
    fn default() -> (indentation: Indentation)
        ensures
            indentation == Indentation::Spaces(4),
    {
        Indentation::Spaces(4)
    }
}

/// The text of one unit of indentation.
pub open spec fn indent_text(indentation: Indentation) -> Seq<char> {
    match indentation {
        Indentation::Tabs => seq!['\t'],
        Indentation::Spaces(count) => repeated(seq![' '], count as nat),
    }
}

/// The table that a list of entries stands for: of two entries for one kind
/// the later one counts.
pub open spec fn registry_of(selectors: Seq<Selector>) -> Map<Seq<char>, SelectorAction>
    decreases selectors.len(),
{
    if selectors.len() == 0 {
        Map::empty()
    } else {
        registry_of(selectors.drop_last()).insert(
            selectors.last().node_kind@,
            selectors.last().action,
        )
    }
}

/// Where the entry at `index` is the last one for `kind`, the table maps
/// `kind` to its action.
proof fn lemma_last_entry_counts(selectors: Seq<Selector>, kind: Seq<char>, index: int)
    requires
        0 <= index < selectors.len(),
        selectors[index].node_kind@ == kind,
        forall|j: int| index < j < selectors.len() ==> selectors[j].node_kind@ != kind,
    ensures
        registry_of(selectors).contains_key(kind),
        registry_of(selectors)[kind] == selectors[index].action,
    decreases selectors.len(),
{
    if index < selectors.len() - 1 {
        lemma_last_entry_counts(selectors.drop_last(), kind, index);
    }
}

/// Where no entry is for `kind`, the table has no action for it.
proof fn lemma_no_entry(selectors: Seq<Selector>, kind: Seq<char>)
    requires
        forall|j: int| 0 <= j < selectors.len() ==> selectors[j].node_kind@ != kind,
    ensures
        !registry_of(selectors).contains_key(kind),
    decreases selectors.len(),
{
    if selectors.len() > 0 {
        lemma_no_entry(selectors.drop_last(), kind);
    }
}

/// Replacing the last entry for a kind by another entry for that kind is
/// registering the new action.
proof fn lemma_replace_last_entry(selectors: Seq<Selector>, index: int, entry: Selector)
    requires
        0 <= index < selectors.len(),
        selectors[index].node_kind@ == entry.node_kind@,
        forall|j: int| index < j < selectors.len() ==> selectors[j].node_kind@ != entry.node_kind@,
    ensures
        registry_of(selectors.update(index, entry)) == registry_of(selectors).insert(
            entry.node_kind@,
            entry.action,
        ),
    decreases selectors.len(),
{
    let updated = selectors.update(index, entry);
    if index == selectors.len() - 1 {
        assert(updated.drop_last() =~= selectors.drop_last());
    } else {
        lemma_replace_last_entry(selectors.drop_last(), index, entry);
        assert(updated.drop_last() =~= selectors.drop_last().update(index, entry));
    }
}

/// The grammar that a configuration parses with.
#[derive(Clone, Copy, Debug)]
pub struct TreeSitterConfig {
    pub language: Language,
}

/// The configuration for the language `language`.
pub fn from_language(language: Language) -> (config: TreeSitterConfig)
    ensures
        config.language == language,
{
    TreeSitterConfig { language }
}

/// The model of a configuration.
pub struct ConfigView {
    pub language: Language,
    pub registry: Map<Seq<char>, SelectorAction>,
    pub indent: Seq<char>,
}

/// The configuration of an extraction: the language, the registry of
/// selectors, and the indentation of elided bodies.
pub struct ParseConfig {
    language_config: TreeSitterConfig,
    selectors: Vec<Selector>,
    indent_value: String,
}

impl View for ParseConfig {
    type V = ConfigView;

    closed spec fn view(&self) -> ConfigView {
        ConfigView {
            language: self.language_config.language,
            registry: registry_of(self.selectors@),
            indent: self.indent_value@,
        }
    }
}

impl ParseConfig {
    /// A configuration for `language` with an empty registry.
    pub fn new(language: Language, indentation: Indentation) -> (config: ParseConfig)
        ensures
            config@.language == language,
            config@.registry == Map::<Seq<char>, SelectorAction>::empty(),
            config@.indent == indent_text(indentation),
    {
        proof {
            reveal_strlit("\t");
            reveal_strlit(" ");
            assert(" "@ =~= seq![' ']);
        }
        let indent_value = match indentation {
            Indentation::Tabs => "\t".to_owned(),
            Indentation::Spaces(indent_size) => repeat(" ", indent_size),
        };
        ParseConfig {
            language_config: from_language(language),
            selectors: Vec::new(),
            indent_value,
        }
    }

    /// Registers the action of `selector` for its kind. An action that was
    /// registered for that kind before is replaced.
    pub fn add_selector(&mut self, selector: Selector)
        ensures
            final(self)@ == (ConfigView {
                registry: old(self)@.registry.insert(selector.node_kind@, selector.action),
                ..old(self)@
            }),
    {
        let mut i: usize = self.selectors.len();
        while i > 0
            invariant
                *self == *old(self),
                0 <= i <= self.selectors.len(),
                forall|j: int|
                    i <= j < self.selectors.len() ==> self.selectors[j].node_kind@
                        != selector.node_kind@,
            decreases i,
        {
            i -= 1;
            if str_eq(self.selectors[i].node_kind.as_str(), selector.node_kind.as_str()) {
                proof {
                    lemma_replace_last_entry(self.selectors@, i as int, selector);
                }
                self.selectors[i] = selector;
                return ;
            }
        }
        self.selectors.push(selector);
        proof {
            assert(self.selectors@.drop_last() =~= old(self).selectors@);
        }
    }

    /// The action that is registered for `node_kind`, where one is.
    pub fn get_selector_action(&self, node_kind: &str) -> (action: Option<&SelectorAction>)
        ensures
            action is Some <==> self@.registry.contains_key(node_kind@),
            action is Some ==> *action.unwrap() == self@.registry[node_kind@],
    {
        let mut i: usize = self.selectors.len();
        while i > 0
            invariant
                0 <= i <= self.selectors.len(),
                forall|j: int|
                    i <= j < self.selectors.len() ==> self.selectors[j].node_kind@ != node_kind@,
            decreases i,
        {
            i -= 1;
            if str_eq(self.selectors[i].node_kind.as_str(), node_kind) {
                proof {
                    lemma_last_entry_counts(self.selectors@, node_kind@, i as int);
                }
                return Some(&self.selectors[i].action);
            }
        }
        proof {
            lemma_no_entry(self.selectors@, node_kind@);
        }
        None
    }

    /// The language that the configuration is for.
    pub fn language(&self) -> (language: Language)
        ensures
            language == self@.language,
    {
        self.language_config.language
    }

    /// One unit of indentation.
    pub fn indent(&self) -> (indent: &str)
        ensures
            indent@ == self@.indent,
    {
        self.indent_value.as_str()
    }
}

} // verus!
