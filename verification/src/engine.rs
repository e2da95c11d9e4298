//! The traversal engine: the walk over a syntax tree that applies the
//! registry's actions and assembles the fragments.
//!
//! The walk takes items from the front of a queue until none is left. A
//! node whose kind has no registered action is dropped with everything
//! below it. The children of a selected node go to the back of the queue, so
//! siblings are visited in breadth order; what a custom rule puts to the
//! front is visited at once.
//!
//! A custom rule that fails ends the extraction: the error is returned, and
//! with it no fragment, not even those that were finished before.

use vstd::prelude::*;
use crate::render::{block_like_to_string, elided};
use crate::selector::{
    has_models,
    keeps_walk_finite,
    rule_result,
    ConfigView,
    ParseConfig,
    ParseError,
    ParseErrorView,
    RuleOutcome,
    SelectorAction,
};
use crate::state::{
    child_items,
    close_fragment,
    emit,
    fragment_texts,
    initial_state,
    item_weight,
    lemma_child_items_weight,
    lemma_queue_weight_concat,
    queue_weight,
    queue_within,
    KeyContent,
    ParseState,
    QueueItem,
    StateView,
};
use crate::text::{trim, trimmed};
use crate::tree::{fits, node_text, well_formed, NodeView, SyntaxTree};

verus! {

/// What the visit of `node` makes of a state from which the node has been
/// taken and whose accumulating flag is the node's.
pub open spec fn visit(
    tree: Seq<NodeView>,
    source: Seq<char>,
    config: ConfigView,
    node: int,
    state: StateView,
) -> Result<StateView, ParseErrorView> {
    let kind = tree[node].kind;
    if !config.registry.contains_key(kind) {
        Ok(state)
    } else {
        match config.registry[kind] {
            SelectorAction::SelectOnly => Ok(
                StateView {
                    queue: state.queue + child_items(
                        tree,
                        node,
                        tree[node].children.len() as int,
                        false,
                    ),
                    ..state
                },
            ),
            SelectorAction::CaptureWithoutBlock => Ok(
                emit(state, elided(tree, node, source, config.indent)),
            ),
            SelectorAction::CaptureAll => Ok(emit(state, trimmed(node_text(tree, node, source)))),
            SelectorAction::Custom(rule) => {
                let outcome = rule.outcome(tree, node, source, state);
                match outcome.result {
                    Ok(_) => Ok(outcome.state),
                    Err(e) => Err(e),
                }
            },
        }
    }
}

/// What one step makes of a state in which an item waits: the item is
/// taken; a sentinel closes the fragment being accumulated, a node is
/// visited under its own accumulating flag.
pub open spec fn step(
    tree: Seq<NodeView>,
    source: Seq<char>,
    config: ConfigView,
    state: StateView,
) -> Result<StateView, ParseErrorView> {
    let rest = StateView { queue: state.queue.drop_first(), ..state };
    match state.queue[0] {
        QueueItem::Sentinel => Ok(close_fragment(rest)),
        QueueItem::Node(node, accumulating) => visit(
            tree,
            source,
            config,
            node as int,
            StateView { is_accumulating: accumulating, ..rest },
        ),
    }
}

/// The fragments that the walk ends with when it goes on from `state`, or
/// the error of the first rule that fails.
pub open spec fn run(
    tree: Seq<NodeView>,
    source: Seq<char>,
    config: ConfigView,
    state: StateView,
) -> Result<Seq<Seq<char>>, ParseErrorView>
    decreases queue_weight(tree, state.queue),
{
    if state.queue.len() == 0 {
        Ok(state.result)
    } else {
        match step(tree, source, config, state) {
            Err(e) => Err(e),
            Ok(next) => if queue_weight(tree, next.queue) < queue_weight(tree, state.queue) {
                run(tree, source, config, next)
            } else {
                Ok(next.result)
            },
        }
    }
}

/// The fragments of a whole tree, in the order of extraction.
pub open spec fn extraction(tree: Seq<NodeView>, source: Seq<char>, config: ConfigView) -> Result<
    Seq<Seq<char>>,
    ParseErrorView,
> {
    run(tree, source, config, initial_state(tree.len()))
}

/// The model of what an extraction returns.
pub open spec fn extraction_result(r: Result<Vec<KeyContent>, ParseError>) -> Result<
    Seq<Seq<char>>,
    ParseErrorView,
> {
    match r {
        Ok(fragments) => Ok(fragment_texts(fragments@)),
        Err(e) => Err(e@),
    }
}

/// Whether the item that waits first is a node on which a custom rule
/// decides.
pub open spec fn asks_rule(tree: Seq<NodeView>, config: ConfigView, state: StateView) -> bool {
    &&& state.queue.len() > 0
    &&& state.queue[0] is Node
    &&& config.registry.contains_key(tree[state.queue[0]->Node_0 as int].kind)
    &&& config.registry[tree[state.queue[0]->Node_0 as int].kind] is Custom
}

/// The state that a rule is handed: the node has been taken from the queue,
/// and the accumulating flag is the node's.
pub open spec fn handed(state: StateView) -> StateView {
    StateView {
        queue: state.queue.drop_first(),
        is_accumulating: state.queue[0]->Node_1,
        ..state
    }
}

/// Whether `answer` is what the rule for the node that waits first may
/// answer: the answer of its model where it has one, and, where it does not
/// fail, a state that keeps the walk finite.
pub open spec fn is_answer(
    tree: Seq<NodeView>,
    source: Seq<char>,
    config: ConfigView,
    state: StateView,
    answer: RuleOutcome,
) -> bool {
    let node = state.queue[0]->Node_0 as int;
    match config.registry[tree[node].kind] {
        SelectorAction::Custom(rule) => {
            &&& rule.has_model() ==> answer == rule.outcome(tree, node, source, handed(state))
            &&& answer.result is Ok ==> keeps_walk_finite(
                tree,
                node,
                handed(state),
                answer.state,
            )
        },
        _ => false,
    }
}

/// Whether the walk that goes on from `state` ends with `result` when the
/// custom rules, asked one after another, give `answers`. Every step that
/// asks no rule is the step of `step`. A rule is handed the state of
/// `handed`; its answer is the state from which the walk goes on, or the
/// error with which the walk ends at once. The walk ends with the finished
/// fragments when nothing waits any more, and every answer has been asked
/// for.
pub open spec fn is_walk(
    tree: Seq<NodeView>,
    source: Seq<char>,
    config: ConfigView,
    state: StateView,
    answers: Seq<RuleOutcome>,
    result: Result<Seq<Seq<char>>, ParseErrorView>,
) -> bool
    decreases queue_weight(tree, state.queue),
{
    if state.queue.len() == 0 {
        answers.len() == 0 && result == Ok::<Seq<Seq<char>>, ParseErrorView>(state.result)
    } else if asks_rule(tree, config, state) {
        if answers.len() == 0 || !is_answer(tree, source, config, state, answers[0]) {
            false
        } else {
            match answers[0].result {
                Err(e) => answers.len() == 1 && result == Err::<Seq<Seq<char>>, ParseErrorView>(e),
                Ok(_) => if queue_weight(tree, answers[0].state.queue) < queue_weight(
                    tree,
                    state.queue,
                ) {
                    is_walk(tree, source, config, answers[0].state, answers.drop_first(), result)
                } else {
                    false
                },
            }
        }
    } else {
        match step(tree, source, config, state) {
            Err(_) => false,
            Ok(next) => if queue_weight(tree, next.queue) < queue_weight(tree, state.queue) {
                is_walk(tree, source, config, next, answers, result)
            } else {
                false
            },
        }
    }
}

/// Whether `result` is what a walk of the whole tree ends with, for some
/// answers of the custom rules.
pub open spec fn is_extraction(
    tree: Seq<NodeView>,
    source: Seq<char>,
    config: ConfigView,
    result: Result<Seq<Seq<char>>, ParseErrorView>,
) -> bool {
    exists|answers: Seq<RuleOutcome>| #[trigger]
        is_walk(tree, source, config, initial_state(tree.len()), answers, result)
}

/// Taking the first item from a queue takes its weight from the queue's.
proof fn lemma_weight_of_rest(tree: Seq<NodeView>, queue: Seq<QueueItem>)
    requires
        queue.len() > 0,
    ensures
        queue_weight(tree, queue) == item_weight(tree, queue[0]) + queue_weight(
            tree,
            queue.drop_first(),
        ),
        queue_within(tree, queue) ==> queue_within(tree, queue.drop_first()),
{
    if queue_within(tree, queue) {
        let rest = queue.drop_first();
        assert forall|i: int| 0 <= i < rest.len() implies ((#[trigger] rest[i]) matches QueueItem::Node(
            node,
            _,
        ) ==> node < tree.len()) by {
            assert(rest[i] == queue[i + 1]);
        }
    }
}

/// A step that no custom rule takes part in leaves less work than it found,
/// and only nodes of the tree in the queue.
pub proof fn lemma_builtin_step_shrinks(
    tree: Seq<NodeView>,
    source: Seq<char>,
    config: ConfigView,
    state: StateView,
)
    requires
        well_formed(tree),
        state.queue.len() > 0,
        queue_within(tree, state.queue),
        state.queue[0] matches QueueItem::Node(node, _) ==> !(config.registry.contains_key(
            tree[node as int].kind,
        ) && config.registry[tree[node as int].kind] is Custom),
    ensures
        step(tree, source, config, state) is Ok,
        queue_within(tree, step(tree, source, config, state)->Ok_0.queue),
        queue_weight(tree, step(tree, source, config, state)->Ok_0.queue) < queue_weight(
            tree,
            state.queue,
        ),
{
    lemma_weight_of_rest(tree, state.queue);
    let rest = state.queue.drop_first();
    match state.queue[0] {
        QueueItem::Sentinel => {},
        QueueItem::Node(node, accumulating) => {
            let kind = tree[node as int].kind;
            if config.registry.contains_key(kind) && config.registry[kind] is SelectOnly {
                let items = child_items(
                    tree,
                    node as int,
                    tree[node as int].children.len() as int,
                    false,
                );
                lemma_child_items_weight(
                    tree,
                    node as int,
                    tree[node as int].children.len() as int,
                    false,
                );
                lemma_queue_weight_concat(tree, rest, items);
            }
        },
    }
}

/// Whether no action of a registry is a custom rule.
pub open spec fn has_no_rules(registry: Map<Seq<char>, SelectorAction>) -> bool {
    forall|kind: Seq<char>|
        registry.contains_key(kind) ==> !((#[trigger] registry[kind]) is Custom)
}

/// A walk in which no custom rule takes part does not fail: from every
/// state it ends with fragments.
pub proof fn lemma_walk_without_rules_succeeds(
    tree: Seq<NodeView>,
    source: Seq<char>,
    config: ConfigView,
    state: StateView,
)
    requires
        well_formed(tree),
        queue_within(tree, state.queue),
        has_no_rules(config.registry),
    ensures
        run(tree, source, config, state) is Ok,
    decreases queue_weight(tree, state.queue),
{
    if state.queue.len() > 0 {
        lemma_builtin_step_shrinks(tree, source, config, state);
        lemma_walk_without_rules_succeeds(
            tree,
            source,
            config,
            step(tree, source, config, state)->Ok_0,
        );
    }
}

/// A node whose kind has no registered action is pruned: the walk goes on
/// as if the node, and with it all that stands below it, had not been in the
/// queue. It yields no fragment and brings no node into the queue.
pub proof fn lemma_unregistered_kind_is_pruned(
    tree: Seq<NodeView>,
    source: Seq<char>,
    config: ConfigView,
    state: StateView,
)
    requires
        state.queue.len() > 0,
        state.queue[0] is Node,
        state.queue[0]->Node_0 < tree.len(),
        !config.registry.contains_key(tree[state.queue[0]->Node_0 as int].kind),
    ensures
        step(tree, source, config, state) == Ok::<StateView, ParseErrorView>(
            StateView {
                queue: state.queue.drop_first(),
                is_accumulating: state.queue[0]->Node_1,
                ..state
            },
        ),
        run(tree, source, config, state) == run(
            tree,
            source,
            config,
            StateView {
                queue: state.queue.drop_first(),
                is_accumulating: state.queue[0]->Node_1,
                ..state
            },
        ),
        forall|answers: Seq<RuleOutcome>, result: Result<Seq<Seq<char>>, ParseErrorView>|
            #[trigger] is_walk(tree, source, config, state, answers, result) == is_walk(
                tree,
                source,
                config,
                StateView {
                    queue: state.queue.drop_first(),
                    is_accumulating: state.queue[0]->Node_1,
                    ..state
                },
                answers,
                result,
            ),
{
    lemma_weight_of_rest(tree, state.queue);
}

/// What a verbatim capture emits is the text that the node spans in the
/// source, byte for byte, with nothing changed but the white space trimmed
/// at both ends: it becomes a fragment of its own, or a piece of the
/// fragment that is being accumulated. Every walk goes on from there,
/// whatever rules the registry holds.
pub proof fn lemma_verbatim_capture_is_source_text(
    tree: Seq<NodeView>,
    source: Seq<char>,
    config: ConfigView,
    state: StateView,
)
    requires
        state.queue.len() > 0,
        state.queue[0] is Node,
        state.queue[0]->Node_0 < tree.len(),
        config.registry.contains_key(tree[state.queue[0]->Node_0 as int].kind),
        config.registry[tree[state.queue[0]->Node_0 as int].kind] is CaptureAll,
    ensures
        step(tree, source, config, state) == Ok::<StateView, ParseErrorView>(
            emit(
                handed(state),
                trimmed(
                    crate::text::byte_slice(
                        source,
                        tree[state.queue[0]->Node_0 as int].start_byte as int,
                        tree[state.queue[0]->Node_0 as int].end_byte as int,
                    ),
                ),
            ),
        ),
        forall|answers: Seq<RuleOutcome>, result: Result<Seq<Seq<char>>, ParseErrorView>|
            #[trigger] is_walk(tree, source, config, state, answers, result) == is_walk(
                tree,
                source,
                config,
                emit(
                    handed(state),
                    trimmed(
                        crate::text::byte_slice(
                            source,
                            tree[state.queue[0]->Node_0 as int].start_byte as int,
                            tree[state.queue[0]->Node_0 as int].end_byte as int,
                        ),
                    ),
                ),
                answers,
                result,
            ),
{
    lemma_weight_of_rest(tree, state.queue);
}

/// Where every rule has a model, the answers are those of the models, and
/// the walk ends with what `run` gives.
pub proof fn lemma_walk_of_models(
    tree: Seq<NodeView>,
    source: Seq<char>,
    config: ConfigView,
    state: StateView,
    answers: Seq<RuleOutcome>,
    result: Result<Seq<Seq<char>>, ParseErrorView>,
)
    requires
        has_models(config.registry),
        is_walk(tree, source, config, state, answers, result),
    ensures
        result == run(tree, source, config, state),
    decreases queue_weight(tree, state.queue),
{
    if state.queue.len() > 0 {
        if asks_rule(tree, config, state) {
            let node = state.queue[0]->Node_0 as int;
            assert(config.registry.contains_key(tree[node].kind));
            if answers[0].result is Ok {
                lemma_walk_of_models(
                    tree,
                    source,
                    config,
                    answers[0].state,
                    answers.drop_first(),
                    result,
                );
            }
        } else {
            lemma_walk_of_models(
                tree,
                source,
                config,
                step(tree, source, config, state)->Ok_0,
                answers,
                result,
            );
        }
    }
}

/// A walk fails exactly when a rule fails: the error of the rule is the
/// result as it is, and it is the last answer that was asked for. Where no
/// rule fails, the walk ends with fragments.
pub proof fn lemma_walk_ends_with_last_answer(
    tree: Seq<NodeView>,
    source: Seq<char>,
    config: ConfigView,
    state: StateView,
    answers: Seq<RuleOutcome>,
    result: Result<Seq<Seq<char>>, ParseErrorView>,
)
    requires
        is_walk(tree, source, config, state, answers, result),
    ensures
        forall|i: int| 0 <= i < answers.len() - 1 ==> (#[trigger] answers[i]).result is Ok,
        result is Err <==> answers.len() > 0 && answers.last().result is Err,
        result is Err ==> answers.last().result == Err::<Seq<char>, ParseErrorView>(
            result->Err_0,
        ),
    decreases queue_weight(tree, state.queue),
{
    if state.queue.len() > 0 {
        if asks_rule(tree, config, state) {
            if answers[0].result is Ok {
                let rest = answers.drop_first();
                lemma_walk_ends_with_last_answer(
                    tree,
                    source,
                    config,
                    answers[0].state,
                    rest,
                    result,
                );
                assert forall|i: int| 0 <= i < answers.len() - 1 implies (
                #[trigger] answers[i]).result is Ok by {
                    if i > 0 {
                        assert(answers[i] == rest[i - 1]);
                    }
                }
                if rest.len() > 0 {
                    assert(answers.last() == rest.last());
                }
            }
        } else {
            lemma_walk_ends_with_last_answer(
                tree,
                source,
                config,
                step(tree, source, config, state)->Ok_0,
                answers,
                result,
            );
        }
    }
}

/// Two extractions from the same tree, source and configuration return the
/// same fragments: an extraction keeps nothing from one call to the next.
pub proof fn lemma_extraction_is_repeatable(
    tree: Seq<NodeView>,
    source: Seq<char>,
    config: ConfigView,
    first: Result<Vec<KeyContent>, ParseError>,
    second: Result<Vec<KeyContent>, ParseError>,
)
    requires
        extraction_result(first) == extraction(tree, source, config),
        extraction_result(second) == extraction(tree, source, config),
    ensures
        extraction_result(first) == extraction_result(second),
{
}

/// Puts the children of `node` behind the items that wait, none accumulating.
fn enqueue_children(tree: &SyntaxTree, node: usize, state: &mut ParseState)
    requires
        node < tree@.len(),
    ensures
        final(state)@ == (StateView {
            queue: old(state)@.queue + child_items(
                tree@,
                node as int,
                tree@[node as int].children.len() as int,
                false,
            ),
            ..old(state)@
        }),
{
    let count = tree.child_count(node);
    let mut k: usize = 0;
    while k < count
        invariant
            node < tree@.len(),
            count == tree@[node as int].children.len(),
            0 <= k <= count,
            state@ == (StateView {
                queue: old(state)@.queue + child_items(tree@, node as int, k as int, false),
                ..old(state)@
            }),
        decreases count - k,
    {
        let child = tree.child(node, k).unwrap();
        state.push_back(QueueItem::Node(child, false));
        proof {
            assert(state@.queue =~= old(state)@.queue + child_items(
                tree@,
                node as int,
                k + 1,
                false,
            ));
        }
        k += 1;
    }
}

/// Walks `tree` and returns the fragments in the order of extraction, or the
/// error of the first custom rule that fails. What is returned is what the
/// walk ends with under the answers that the rules gave; where every rule
/// has a model, it is the extraction that the models give.
pub fn extract(tree: &SyntaxTree, source: &str, config: &ParseConfig) -> (r: Result<
    Vec<KeyContent>,
    ParseError,
>)
    requires
        fits(tree@, source@),
    ensures
        is_extraction(tree@, source@, config@, extraction_result(r)),
        has_models(config@.registry) ==> extraction_result(r) == extraction(
            tree@,
            source@,
            config@,
        ),
{
    proof {
        use_type_invariant(tree);
    }
    let mut state = ParseState::new();
    if tree.len() > 0 {
        state.push_back(QueueItem::Node(0, false));
    }
    let ghost start = state@;
    let ghost past: Seq<RuleOutcome> = Seq::empty();
    proof {
        assert forall|future: Seq<RuleOutcome>, result: Result<Seq<Seq<char>>, ParseErrorView>|
            #[trigger] is_walk(tree@, source@, config@, state@, future, result) implies is_walk(
            tree@,
            source@,
            config@,
            start,
            past + future,
            result,
        ) by {
            assert(past + future =~= future);
        }
    }
    while state.has_work()
        invariant
            well_formed(tree@),
            fits(tree@, source@),
            queue_within(tree@, state@.queue),
            start == initial_state(tree@.len()),
            forall|future: Seq<RuleOutcome>, result: Result<Seq<Seq<char>>, ParseErrorView>|
                #[trigger] is_walk(tree@, source@, config@, state@, future, result) ==> is_walk(
                    tree@,
                    source@,
                    config@,
                    start,
                    past + future,
                    result,
                ),
            has_models(config@.registry) ==> run(tree@, source@, config@, state@) == extraction(
                tree@,
                source@,
                config@,
            ),
        decreases queue_weight(tree@, state@.queue),
    {
        let ghost before = state@;
        let ghost asked = past;
        proof {
            lemma_weight_of_rest(tree@, before.queue);
        }
        let item = state.pop_front().unwrap();
        match item {
            QueueItem::Sentinel => {
                state.finalize_accumulator();
                proof {
                    lemma_builtin_step_shrinks(tree@, source@, config@, before);
                }
            },
            QueueItem::Node(node, accumulating) => {
                state.set_accumulating(accumulating);
                let kind = tree.kind(node);
                let action = config.get_selector_action(kind);
                match action {
                    None => {
                        proof {
                            lemma_builtin_step_shrinks(tree@, source@, config@, before);
                        }
                    },
                    Some(SelectorAction::SelectOnly) => {
                        enqueue_children(tree, node, &mut state);
                        proof {
                            lemma_builtin_step_shrinks(tree@, source@, config@, before);
                        }
                    },
                    Some(SelectorAction::CaptureWithoutBlock) => {
                        let content = block_like_to_string(tree, node, source, config);
                        state.update_content(content);
                        proof {
                            lemma_builtin_step_shrinks(tree@, source@, config@, before);
                        }
                    },
                    Some(SelectorAction::CaptureAll) => {
                        let content = trim(tree.text(node, source)).to_owned();
                        state.update_content(content);
                        proof {
                            lemma_builtin_step_shrinks(tree@, source@, config@, before);
                        }
                    },
                    Some(SelectorAction::Custom(rule)) => {
                        proof {
                            assert(config@.registry[kind@] is Custom);
                            assert(asks_rule(tree@, config@, before));
                        }
                        let ghost given = state@;
                        let answered = rule.apply(tree, node, source, &mut state);
                        let ghost answer = RuleOutcome {
                            result: rule_result(answered),
                            state: state@,
                        };
                        proof {
                            assert(given == handed(before));
                            assert(answer.result is Ok ==> keeps_walk_finite(tree@, node as int, given, answer.state));
                            assert(rule.has_model() ==> answer == rule.outcome(tree@, node as int, source@, given));
                            assert(is_answer(tree@, source@, config@, before, answer));
                            past = asked.push(answer);
                        }
                        match answered {
                            Ok(_) => {
                                proof {
                                    assert forall|
                                        future: Seq<RuleOutcome>,
                                        result: Result<Seq<Seq<char>>, ParseErrorView>,
                                    | #[trigger]
                                        is_walk(
                                            tree@,
                                            source@,
                                            config@,
                                            state@,
                                            future,
                                            result,
                                        ) implies is_walk(
                                        tree@,
                                        source@,
                                        config@,
                                        start,
                                        past + future,
                                        result,
                                    ) by {
                                        let whole = seq![answer] + future;
                                        assert(whole[0] == answer);
                                        assert(whole.drop_first() =~= future);
                                        assert(is_walk(
                                            tree@,
                                            source@,
                                            config@,
                                            before,
                                            whole,
                                            result,
                                        ));
                                        assert(asked + whole =~= past + future);
                                    }
                                }
                            },
                            Err(e) => {
                                proof {
                                    let last = seq![answer];
                                    let failed = Err::<Seq<Seq<char>>, ParseErrorView>(e@);
                                    assert(is_walk(tree@, source@, config@, before, last, failed));
                                    assert(asked + last =~= past);
                                }
                                return Err(e);
                            },
                        }
                    },
                }
            },
        }
        proof {
            if past == asked {
                assert forall|
                    future: Seq<RuleOutcome>,
                    result: Result<Seq<Seq<char>>, ParseErrorView>,
                | #[trigger]
                    is_walk(tree@, source@, config@, state@, future, result) implies is_walk(
                    tree@,
                    source@,
                    config@,
                    start,
                    past + future,
                    result,
                ) by {
                    assert(is_walk(tree@, source@, config@, before, future, result));
                }
            }
        }
    }
    proof {
        let none = Seq::<RuleOutcome>::empty();
        let done = Ok::<Seq<Seq<char>>, ParseErrorView>(state@.result);
        assert(is_walk(tree@, source@, config@, state@, none, done));
        assert(past + none =~= past);
    }
    Ok(state.into_result())
}

} // verus!
