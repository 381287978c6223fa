//! What holds of every tree that the builder makes.
use crate::markdown::event::{Element, Lexeme};
use crate::markdown::node::{Block, TextRun, Tree};
use crate::markdown::parser::{
    as_task, blank, close_level, container_node, document, finish, mark_task, opened_container,
    lemma_step_well_stacked, opened_leaf, push_text, route_text, run, start, step, task_kind,
    well_stacked, with_nodes, Level,
};
use std::ops::Range;
use vstd::prelude::*;

verus! {

/// Whether an event opens a block that the tree has a node for.
pub open spec fn opens_block(lexeme: Lexeme) -> bool {
    lexeme matches Lexeme::Start(element) && (opened_container(element) is Some || opened_leaf(
        element,
    ) is Some)
}

/// The open levels are well stacked after any sequence of events.
pub proof fn lemma_run_well_stacked(lexemes: Seq<(Lexeme, Range<usize>)>)
    ensures
        well_stacked(run(lexemes)),
    decreases lexemes.len(),
{
    if lexemes.len() > 0 {
        lemma_run_well_stacked(lexemes.drop_last());
        lemma_step_well_stacked(run(lexemes.drop_last()), lexemes.last().0, lexemes.last().1);
    }
}

/// A document of events that open no block has no nodes: what the tree has no
/// node for leaves no trace, and neither does text that finds no node.
pub proof fn lemma_unsupported_events_leave_nothing(lexemes: Seq<(Lexeme, Range<usize>)>)
    requires
        forall|i: int| 0 <= i < lexemes.len() ==> !opens_block(#[trigger] lexemes[i].0),
    ensures
        document(lexemes) == Seq::<Tree>::empty(),
{
    lemma_nothing_opened(lexemes);
}

proof fn lemma_nothing_opened(lexemes: Seq<(Lexeme, Range<usize>)>)
    requires
        forall|i: int| 0 <= i < lexemes.len() ==> !opens_block(#[trigger] lexemes[i].0),
    ensures
        run(lexemes) == start(),
    decreases lexemes.len(),
{
    if lexemes.len() > 0 {
        let shorter = lexemes.drop_last();
        assert forall|i: int| 0 <= i < shorter.len() implies !opens_block(
            #[trigger] shorter[i].0,
        ) by {
            assert(shorter[i] == lexemes[i]);
        }
        lemma_nothing_opened(shorter);
        let last = lexemes[lexemes.len() - 1];
        assert(!opens_block(last.0));
        assert(step(start(), last.0, last.1) =~= start());
    }
}

/// Whether a tree is a task list item or holds one.
pub open spec fn holds_task(tree: Tree) -> bool
    decreases tree,
{
    tree.block is TaskListItem || exists|i: int|
        0 <= i < tree.nodes.len() && holds_task(#[trigger] tree.nodes[i])
}

/// Whether one of the open levels holds a task list item.
pub open spec fn levels_hold_task(levels: Seq<Level>) -> bool {
    exists|k: int, i: int|
        0 <= k < levels.len() && 0 <= i < levels[k].nodes.len() && holds_task(
            #[trigger] levels[k].nodes[i],
        )
}

/// A list item whose task marker follows its opening at once is a task list
/// item of the kind of the marker, with the range of the item and without
/// text: the two events together leave what the opening of such a task list
/// item would leave.
pub proof fn lemma_item_with_marker_is_task(
    levels: Seq<Level>,
    range: Range<usize>,
    checked: bool,
    marker_range: Range<usize>,
)
    requires
        well_stacked(levels),
    ensures
        step(
            step(levels, Lexeme::Start(Element::Item), range),
            Lexeme::TaskListMarker(checked),
            marker_range,
        ) == with_nodes(
            levels,
            levels.last().nodes.push(blank(Block::TaskListItem(task_kind(checked)), range)),
        ),
        blank(Block::TaskListItem(task_kind(checked)), range).block !is Item,
{
    let opened = step(levels, Lexeme::Start(Element::Item), range);
    let marked = step(opened, Lexeme::TaskListMarker(checked), marker_range);
    let expected = with_nodes(
        levels,
        levels.last().nodes.push(blank(Block::TaskListItem(task_kind(checked)), range)),
    );
    assert(marked.len() == expected.len());
    assert(marked.last().nodes =~= expected.last().nodes);
    assert(marked =~= expected);
}

/// Text never makes a task list item.
pub proof fn lemma_push_text_keeps_tasks(tree: Tree, run: TextRun)
    ensures
        holds_task(push_text(tree, run)) == holds_task(tree),
        push_text(tree, run).block == tree.block,
        push_text(tree, run).range == tree.range,
        push_text(tree, run).nodes.len() == tree.nodes.len(),
    decreases tree,
{
    if tree.block.is_container() && tree.nodes.len() > 0 {
        let last = tree.nodes.len() - 1;
        lemma_push_text_keeps_tasks(tree.nodes[last], run);
        let pushed = push_text(tree, run);
        if holds_task(tree) {
            let i = choose|i: int| 0 <= i < tree.nodes.len() && holds_task(#[trigger] tree.nodes[i]);
            assert(holds_task(pushed.nodes[i]));
        }
        if holds_task(pushed) {
            let i = choose|i: int|
                0 <= i < pushed.nodes.len() && holds_task(#[trigger] pushed.nodes[i]);
            assert(holds_task(tree.nodes[i]));
        }
    } else if !tree.block.is_container() {
        let pushed = push_text(tree, run);
        assert(pushed.nodes == tree.nodes);
    }
}

/// Without a task marker among the events no node of the document is a task
/// list item: every list item stays a plain item.
pub proof fn lemma_no_marker_no_task(lexemes: Seq<(Lexeme, Range<usize>)>)
    requires
        forall|i: int| 0 <= i < lexemes.len() ==> (#[trigger] lexemes[i]).0 !is TaskListMarker,
    ensures
        forall|i: int|
            0 <= i < document(lexemes).len() ==> !holds_task(#[trigger] document(lexemes)[i]),
{
    lemma_run_without_marker(lexemes);
    lemma_run_well_stacked(lexemes);
    lemma_finish_keeps_tasks(run(lexemes));
    assert forall|i: int| 0 <= i < document(lexemes).len() implies !holds_task(
        #[trigger] document(lexemes)[i],
    ) by {
        let done = seq![Level { nodes: document(lexemes), ..run(lexemes)[0] }];
        if holds_task(document(lexemes)[i]) {
            assert(holds_task(done[0].nodes[i]));
        }
    }
}

proof fn lemma_run_without_marker(lexemes: Seq<(Lexeme, Range<usize>)>)
    requires
        forall|i: int| 0 <= i < lexemes.len() ==> (#[trigger] lexemes[i]).0 !is TaskListMarker,
    ensures
        !levels_hold_task(run(lexemes)),
    decreases lexemes.len(),
{
    if lexemes.len() > 0 {
        let shorter = lexemes.drop_last();
        assert forall|i: int| 0 <= i < shorter.len() implies (
        #[trigger] shorter[i]).0 !is TaskListMarker by {
            assert(shorter[i] == lexemes[i]);
        }
        lemma_run_without_marker(shorter);
        lemma_run_well_stacked(shorter);
        let last = lexemes[lexemes.len() - 1];
        assert(last.0 !is TaskListMarker);
        lemma_step_keeps_tasks(run(shorter), last.0, last.1);
    }
}

/// An event that is no task marker makes no task list item.
proof fn lemma_step_keeps_tasks(levels: Seq<Level>, lexeme: Lexeme, range: Range<usize>)
    requires
        well_stacked(levels),
        !levels_hold_task(levels),
        lexeme !is TaskListMarker,
    ensures
        !levels_hold_task(step(levels, lexeme, range)),
{
    let after = step(levels, lexeme, range);
    let top = levels.len() - 1;
    if levels_hold_task(after) {
        let (k, i) = choose|k: int, i: int|
            0 <= k < after.len() && 0 <= i < after[k].nodes.len() && holds_task(
                #[trigger] after[k].nodes[i],
            );
        match lexeme {
            Lexeme::Start(element) => {
                if opened_container(element) is Some {
                    assert(after[k] == levels[k]);
                    assert(holds_task(levels[k].nodes[i]));
                } else if opened_leaf(element) is Some {
                    if k == top && i == levels[top].nodes.len() {
                        assert(!holds_task(blank(opened_leaf(element)->0, range)));
                    } else {
                        assert(after[k].nodes[i] == levels[k].nodes[i]);
                        assert(holds_task(levels[k].nodes[i]));
                    }
                } else {
                    assert(holds_task(levels[k].nodes[i]));
                }
            },
            Lexeme::End(end) => {
                if after != levels {
                    lemma_close_keeps_tasks(levels);
                } else {
                    assert(holds_task(levels[k].nodes[i]));
                }
            },
            Lexeme::Text(content) => {
                lemma_route_keeps_tasks(levels, TextRun { content, style: None }, k, i);
            },
            Lexeme::Code(content) => {
                lemma_route_keeps_tasks(
                    levels,
                    TextRun { content, style: Some(crate::markdown::node::Style::Code) },
                    k,
                    i,
                );
            },
            _ => {
                assert(holds_task(levels[k].nodes[i]));
            },
        }
    }
}

proof fn lemma_route_keeps_tasks(levels: Seq<Level>, run: TextRun, k: int, i: int)
    requires
        levels.len() >= 1,
        !levels_hold_task(levels),
        0 <= k < levels.len(),
        0 <= i < with_nodes(levels, route_text(levels.last().nodes, run))[k].nodes.len(),
    ensures
        !holds_task(with_nodes(levels, route_text(levels.last().nodes, run))[k].nodes[i]),
{
    let top = levels.len() - 1;
    let nodes = levels[top].nodes;
    let after = with_nodes(levels, route_text(nodes, run));
    if k == top && nodes.len() > 0 && i == nodes.len() - 1 {
        lemma_push_text_keeps_tasks(nodes[i], run);
        assert(!holds_task(levels[k].nodes[i]));
    } else {
        assert(after[k].nodes[i] == levels[k].nodes[i]);
        assert(!holds_task(levels[k].nodes[i]));
    }
}

/// Closing a level makes no task list item.
proof fn lemma_close_keeps_tasks(levels: Seq<Level>)
    requires
        levels.len() >= 2,
        !levels_hold_task(levels),
    ensures
        !levels_hold_task(close_level(levels)),
{
    let after = close_level(levels);
    let top = levels.len() - 1;
    if levels_hold_task(after) {
        let (k, i) = choose|k: int, i: int|
            0 <= k < after.len() && 0 <= i < after[k].nodes.len() && holds_task(
                #[trigger] after[k].nodes[i],
            );
        if k == top - 1 && i == levels[top - 1].nodes.len() {
            let node = container_node(levels[top]);
            assert(after[k].nodes[i] == node);
            assert(node.block !is TaskListItem);
            let j = choose|j: int| 0 <= j < node.nodes.len() && holds_task(#[trigger] node.nodes[j]);
            assert(holds_task(levels[top].nodes[j]));
        } else {
            assert(after[k].nodes[i] == levels[k].nodes[i]);
            assert(holds_task(levels[k].nodes[i]));
        }
    }
}

proof fn lemma_finish_keeps_tasks(levels: Seq<Level>)
    requires
        levels.len() >= 1,
        !levels_hold_task(levels),
    ensures
        !levels_hold_task(seq![Level { nodes: finish(levels), ..levels[0] }]),
    decreases levels.len(),
{
    if levels.len() == 1 {
        let done = seq![Level { nodes: finish(levels), ..levels[0] }];
        assert(done =~= levels);
    } else {
        lemma_close_keeps_tasks(levels);
        lemma_finish_keeps_tasks(close_level(levels));
        assert(close_level(levels)[0].tag == levels[0].tag);
        assert(close_level(levels)[0].range == levels[0].range);
    }
}

/// Whether a range lies within another.
pub open spec fn within(inner: Range<usize>, outer: Range<usize>) -> bool {
    outer.start <= inner.start && inner.end <= outer.end
}

/// Whether every node of a tree lies within the range of the node that holds
/// it.
pub open spec fn nested(tree: Tree) -> bool
    decreases tree,
{
    forall|i: int|
        0 <= i < tree.nodes.len() ==> within((#[trigger] tree.nodes[i]).range, tree.range)
            && nested(tree.nodes[i])
}

/// Whether a block that opens now lies within the innermost open container, if
/// one is open.
pub open spec fn fits_open(levels: Seq<Level>, range: Range<usize>) -> bool {
    levels.len() >= 2 ==> within(range, levels.last().range)
}

/// Whether every block lies within the container that is open when the block
/// opens.
pub open spec fn blocks_nested(lexemes: Seq<(Lexeme, Range<usize>)>) -> bool {
    forall|i: int|
        0 <= i < lexemes.len() && opens_block((#[trigger] lexemes[i]).0) ==> fits_open(
            run(lexemes.take(i)),
            lexemes[i].1,
        )
}

/// What holds of the open levels while every block lies within its container:
/// the nodes built so far are nested, the nodes of an open container lie
/// within it, and an open container lies within the open container around it.
pub open spec fn levels_nested(levels: Seq<Level>) -> bool {
    &&& forall|k: int, i: int|
        0 <= k < levels.len() && 0 <= i < levels[k].nodes.len() ==> nested(
            #[trigger] levels[k].nodes[i],
        )
    &&& forall|k: int, i: int|
        1 <= k < levels.len() && 0 <= i < levels[k].nodes.len() ==> within(
            (#[trigger] levels[k].nodes[i]).range,
            levels[k].range,
        )
    &&& forall|k: int| 2 <= k < levels.len() ==> within((#[trigger] levels[k]).range, levels[k - 1].range)
}

/// Text leaves ranges as they are, and a nested tree nested.
pub proof fn lemma_push_text_keeps_nested(tree: Tree, run: TextRun)
    requires
        nested(tree),
    ensures
        nested(push_text(tree, run)),
        push_text(tree, run).range == tree.range,
    decreases tree,
{
    if tree.block.is_container() && tree.nodes.len() > 0 {
        let last = tree.nodes.len() - 1;
        assert(nested(tree.nodes[last]));
        lemma_push_text_keeps_nested(tree.nodes[last], run);
        let pushed = push_text(tree, run);
        assert forall|i: int| 0 <= i < pushed.nodes.len() implies within(
            (#[trigger] pushed.nodes[i]).range,
            pushed.range,
        ) && nested(pushed.nodes[i]) by {
            if i != last {
                assert(pushed.nodes[i] == tree.nodes[i]);
            }
            assert(nested(tree.nodes[i]));
        }
    } else if !tree.block.is_container() {
        let pushed = push_text(tree, run);
        assert forall|i: int| 0 <= i < pushed.nodes.len() implies within(
            (#[trigger] pushed.nodes[i]).range,
            pushed.range,
        ) && nested(pushed.nodes[i]) by {
            assert(pushed.nodes[i] == tree.nodes[i]);
        }
    }
}

proof fn lemma_close_keeps_nested(levels: Seq<Level>)
    requires
        levels.len() >= 2,
        levels_nested(levels),
    ensures
        levels_nested(close_level(levels)),
{
    let after = close_level(levels);
    let top = levels.len() - 1;
    let node = container_node(levels[top]);
    assert(nested(node)) by {
        assert forall|i: int| 0 <= i < node.nodes.len() implies within(
            (#[trigger] node.nodes[i]).range,
            node.range,
        ) && nested(node.nodes[i]) by {
            assert(nested(levels[top].nodes[i]));
            assert(within(levels[top].nodes[i].range, levels[top].range));
        }
    }
    assert forall|k: int, i: int|
        0 <= k < after.len() && 0 <= i < after[k].nodes.len() implies nested(
        #[trigger] after[k].nodes[i],
    ) by {
        if !(k == top - 1 && i == levels[top - 1].nodes.len()) {
            assert(after[k].nodes[i] == levels[k].nodes[i]);
            assert(nested(levels[k].nodes[i]));
        }
    }
    assert forall|k: int, i: int|
        1 <= k < after.len() && 0 <= i < after[k].nodes.len() implies within(
        (#[trigger] after[k].nodes[i]).range,
        after[k].range,
    ) by {
        if k == top - 1 && i == levels[top - 1].nodes.len() {
            assert(within(levels[top].range, levels[top - 1].range));
        } else {
            assert(after[k].nodes[i] == levels[k].nodes[i]);
            assert(within(levels[k].nodes[i].range, levels[k].range));
        }
    }
    assert forall|k: int| 2 <= k < after.len() implies within(
        (#[trigger] after[k]).range,
        after[k - 1].range,
    ) by {
        assert(within(levels[k].range, levels[k - 1].range));
    }
}

proof fn lemma_step_keeps_nested(levels: Seq<Level>, lexeme: Lexeme, range: Range<usize>)
    requires
        well_stacked(levels),
        levels_nested(levels),
        opens_block(lexeme) ==> fits_open(levels, range),
    ensures
        levels_nested(step(levels, lexeme, range)),
{
    let after = step(levels, lexeme, range);
    let top = levels.len() - 1;
    let nodes = levels[top].nodes;
    match lexeme {
        Lexeme::End(end) => {
            if after != levels {
                lemma_close_keeps_nested(levels);
            }
        },
        Lexeme::Start(element) => {
            if opened_container(element) is Some {
                assert forall|k: int, i: int|
                    0 <= k < after.len() && 0 <= i < after[k].nodes.len() implies nested(
                    #[trigger] after[k].nodes[i],
                ) by {
                    assert(nested(levels[k].nodes[i]));
                }
                assert forall|k: int, i: int|
                    1 <= k < after.len() && 0 <= i < after[k].nodes.len() implies within(
                    (#[trigger] after[k].nodes[i]).range,
                    after[k].range,
                ) by {
                    assert(within(levels[k].nodes[i].range, levels[k].range));
                }
                assert forall|k: int| 2 <= k < after.len() implies within(
                    (#[trigger] after[k]).range,
                    after[k - 1].range,
                ) by {
                    if k < levels.len() {
                        assert(within(levels[k].range, levels[k - 1].range));
                    }
                }
            } else if opened_leaf(element) is Some {
                let leaf = blank(opened_leaf(element)->0, range);
                assert(nested(leaf));
                lemma_changed_last(levels, nodes.push(leaf), nodes.len() as int);
            }
        },
        Lexeme::Text(content) => {
            let run = TextRun { content, style: None };
            if nodes.len() > 0 {
                assert(nested(levels[top].nodes[nodes.len() - 1]));
                lemma_push_text_keeps_nested(nodes[nodes.len() - 1], run);
                lemma_changed_last(levels, route_text(nodes, run), nodes.len() - 1);
            } else {
                assert(after =~= levels);
            }
        },
        Lexeme::Code(content) => {
            let run = TextRun { content, style: Some(crate::markdown::node::Style::Code) };
            if nodes.len() > 0 {
                assert(nested(levels[top].nodes[nodes.len() - 1]));
                lemma_push_text_keeps_nested(nodes[nodes.len() - 1], run);
                lemma_changed_last(levels, route_text(nodes, run), nodes.len() - 1);
            } else {
                assert(after =~= levels);
            }
        },
        Lexeme::TaskListMarker(checked) => {
            if nodes.len() > 0 {
                assert(nested(as_task(nodes[nodes.len() - 1], checked)));
                lemma_changed_last(levels, mark_task(nodes, checked), nodes.len() - 1);
            } else {
                assert(after =~= levels);
            }
        },
        Lexeme::Other => {},
    }
}

/// The open levels stay nested when the innermost level gets other nodes that
/// differ from its own only at one place, where a nested node of a fitting
/// range stands.
proof fn lemma_changed_last(levels: Seq<Level>, nodes: Seq<Tree>, at: int)
    requires
        levels.len() >= 1,
        levels_nested(levels),
        0 <= at < nodes.len(),
        nodes.len() == levels.last().nodes.len() || (nodes.len() == levels.last().nodes.len() + 1
            && at == nodes.len() - 1),
        forall|i: int| 0 <= i < nodes.len() && i != at ==> nodes[i] == levels.last().nodes[i],
        nested(nodes[at]),
        levels.len() >= 2 ==> within(nodes[at].range, levels.last().range),
    ensures
        levels_nested(with_nodes(levels, nodes)),
{
    let after = with_nodes(levels, nodes);
    let top = levels.len() - 1;
    assert forall|k: int, i: int|
        0 <= k < after.len() && 0 <= i < after[k].nodes.len() implies nested(
        #[trigger] after[k].nodes[i],
    ) by {
        if !(k == top && i == at) {
            assert(after[k].nodes[i] == levels[k].nodes[i]);
            assert(nested(levels[k].nodes[i]));
        }
    }
    assert forall|k: int, i: int|
        1 <= k < after.len() && 0 <= i < after[k].nodes.len() implies within(
        (#[trigger] after[k].nodes[i]).range,
        after[k].range,
    ) by {
        if !(k == top && i == at) {
            assert(after[k].nodes[i] == levels[k].nodes[i]);
            assert(within(levels[k].nodes[i].range, levels[k].range));
        }
    }
    assert forall|k: int| 2 <= k < after.len() implies within(
        (#[trigger] after[k]).range,
        after[k - 1].range,
    ) by {
        assert(within(levels[k].range, levels[k - 1].range));
    }
}

proof fn lemma_run_nested(lexemes: Seq<(Lexeme, Range<usize>)>)
    requires
        blocks_nested(lexemes),
    ensures
        levels_nested(run(lexemes)),
        well_stacked(run(lexemes)),
    decreases lexemes.len(),
{
    lemma_run_well_stacked(lexemes);
    if lexemes.len() > 0 {
        let shorter = lexemes.drop_last();
        assert forall|i: int|
            0 <= i < shorter.len() && opens_block((#[trigger] shorter[i]).0) implies fits_open(
            run(shorter.take(i)),
            shorter[i].1,
        ) by {
            assert(shorter[i] == lexemes[i]);
            assert(shorter.take(i) =~= lexemes.take(i));
        }
        lemma_run_nested(shorter);
        let last = lexemes.len() - 1;
        assert(lexemes.take(last) =~= shorter);
        assert(lexemes[last] == lexemes.last());
        lemma_step_keeps_nested(run(shorter), lexemes[last].0, lexemes[last].1);
    }
}

proof fn lemma_finish_nested(levels: Seq<Level>)
    requires
        levels.len() >= 1,
        levels_nested(levels),
    ensures
        forall|i: int| 0 <= i < finish(levels).len() ==> nested(#[trigger] finish(levels)[i]),
    decreases levels.len(),
{
    if levels.len() == 1 {
        assert forall|i: int| 0 <= i < finish(levels).len() implies nested(
            #[trigger] finish(levels)[i],
        ) by {
            assert(nested(levels[0].nodes[i]));
        }
    } else {
        lemma_close_keeps_nested(levels);
        lemma_finish_nested(close_level(levels));
        assert(finish(levels) == finish(close_level(levels)));
    }
}

/// Range containment: where every block lies within the container that is open
/// when the block opens, every node of the document lies within the range of
/// the node that holds it.
pub proof fn lemma_range_containment(lexemes: Seq<(Lexeme, Range<usize>)>)
    requires
        blocks_nested(lexemes),
    ensures
        forall|i: int|
            0 <= i < document(lexemes).len() ==> nested(#[trigger] document(lexemes)[i]),
{
    lemma_run_nested(lexemes);
    lemma_finish_nested(run(lexemes));
}

/// Whether the nodes stand one after the other: each range ends where it
/// starts or later, and each node but the first starts where the node before
/// it ends or later.
pub open spec fn in_order(nodes: Seq<Tree>) -> bool {
    forall|i: int|
        0 <= i < nodes.len() ==> (#[trigger] nodes[i]).range.start <= nodes[i].range.end && (i
            >= 1 ==> nodes[i - 1].range.end <= nodes[i].range.start)
}

/// Whether a block that opens now follows the last node of the innermost open
/// level, and has a range that ends where it starts or later.
pub open spec fn follows_last(levels: Seq<Level>, range: Range<usize>) -> bool {
    follows(levels.last().nodes, range)
}

/// Whether a range ends where it starts or later, and starts where the last of
/// the nodes ends or later.
pub open spec fn follows(nodes: Seq<Tree>, range: Range<usize>) -> bool {
    range.start <= range.end && (nodes.len() > 0 ==> nodes.last().range.end <= range.start)
}

/// Whether every block starts where the node before it on its level ends, or
/// later.
pub open spec fn blocks_follow(lexemes: Seq<(Lexeme, Range<usize>)>) -> bool {
    forall|i: int|
        0 <= i < lexemes.len() && opens_block((#[trigger] lexemes[i]).0) ==> follows_last(
            run(lexemes.take(i)),
            lexemes[i].1,
        )
}

/// What holds of the open levels while every block follows the node before it:
/// the nodes of each level stand in order, and an open container follows the
/// last node of the level around it.
pub open spec fn levels_in_order(levels: Seq<Level>) -> bool {
    &&& forall|k: int| 0 <= k < levels.len() ==> in_order((#[trigger] levels[k]).nodes)
    &&& forall|k: int|
        1 <= k < levels.len() ==> follows(levels[k - 1].nodes, (#[trigger] levels[k]).range)
}

proof fn lemma_close_keeps_order(levels: Seq<Level>)
    requires
        levels.len() >= 2,
        levels_in_order(levels),
    ensures
        levels_in_order(close_level(levels)),
{
    let after = close_level(levels);
    let top = levels.len() - 1;
    let node = container_node(levels[top]);
    assert(follows(levels[top - 1].nodes, levels[top].range));
    assert(in_order(levels[top - 1].nodes));
    let more = levels[top - 1].nodes.push(node);
    assert(after[top - 1].nodes == more);
    assert(in_order(more)) by {
        assert forall|i: int| 0 <= i < more.len() implies (#[trigger] more[i]).range.start
            <= more[i].range.end && (i >= 1 ==> more[i - 1].range.end
            <= more[i].range.start) by {
            if i < levels[top - 1].nodes.len() {
                assert(more[i] == levels[top - 1].nodes[i]);
            }
        }
    }
    assert forall|k: int| 0 <= k < after.len() implies in_order((#[trigger] after[k]).nodes) by {
        if k != top - 1 {
            assert(after[k] == levels[k]);
            assert(in_order(levels[k].nodes));
        }
    }
    assert forall|k: int| 1 <= k < after.len() implies follows(
        after[k - 1].nodes,
        (#[trigger] after[k]).range,
    ) by {
        assert(follows(levels[k - 1].nodes, levels[k].range));
        assert(after[k - 1] == levels[k - 1]);
    }
}

proof fn lemma_order_changed_last(levels: Seq<Level>, nodes: Seq<Tree>)
    requires
        levels.len() >= 1,
        levels_in_order(levels),
        in_order(nodes),
    ensures
        levels_in_order(with_nodes(levels, nodes)),
{
    let after = with_nodes(levels, nodes);
    let top = levels.len() - 1;
    assert forall|k: int| 0 <= k < after.len() implies in_order((#[trigger] after[k]).nodes) by {
        if k != top {
            assert(after[k] == levels[k]);
            assert(in_order(levels[k].nodes));
        }
    }
    assert forall|k: int| 1 <= k < after.len() implies follows(
        after[k - 1].nodes,
        (#[trigger] after[k]).range,
    ) by {
        assert(follows(levels[k - 1].nodes, levels[k].range));
        assert(after[k - 1] == levels[k - 1]);
    }
}

proof fn lemma_step_keeps_order(levels: Seq<Level>, lexeme: Lexeme, range: Range<usize>)
    requires
        well_stacked(levels),
        levels_in_order(levels),
        opens_block(lexeme) ==> follows_last(levels, range),
    ensures
        levels_in_order(step(levels, lexeme, range)),
{
    let after = step(levels, lexeme, range);
    let top = levels.len() - 1;
    let nodes = levels[top].nodes;
    assert(in_order(levels[top].nodes));
    match lexeme {
        Lexeme::End(end) => {
            if after != levels {
                lemma_close_keeps_order(levels);
            }
        },
        Lexeme::Start(element) => {
            if opened_container(element) is Some {
                assert forall|k: int| 0 <= k < after.len() implies in_order(
                    (#[trigger] after[k]).nodes,
                ) by {
                    if k < levels.len() {
                        assert(in_order(levels[k].nodes));
                    }
                }
                assert forall|k: int| 1 <= k < after.len() implies follows(
                    after[k - 1].nodes,
                    (#[trigger] after[k]).range,
                ) by {
                    if k < levels.len() {
                        assert(follows(levels[k - 1].nodes, levels[k].range));
                    }
                }
            } else if opened_leaf(element) is Some {
                let leaf = blank(opened_leaf(element)->0, range);
                let more = nodes.push(leaf);
                assert forall|i: int| 0 <= i < more.len() implies (
                #[trigger] more[i]).range.start <= more[i].range.end && (i >= 1 ==> more[i
                    - 1].range.end <= more[i].range.start) by {
                    if i < nodes.len() {
                        assert(more[i] == nodes[i]);
                    }
                }
                lemma_order_changed_last(levels, more);
            }
        },
        Lexeme::Text(content) => {
            lemma_route_keeps_order(nodes, TextRun { content, style: None });
            lemma_order_changed_last(levels, route_text(nodes, TextRun { content, style: None }));
        },
        Lexeme::Code(content) => {
            let run = TextRun { content, style: Some(crate::markdown::node::Style::Code) };
            lemma_route_keeps_order(nodes, run);
            lemma_order_changed_last(levels, route_text(nodes, run));
        },
        Lexeme::TaskListMarker(checked) => {
            let marked = mark_task(nodes, checked);
            assert forall|i: int| 0 <= i < marked.len() implies (
            #[trigger] marked[i]).range.start <= marked[i].range.end && (i >= 1 ==> marked[i
                - 1].range.end <= marked[i].range.start) by {
                assert(marked[i].range == nodes[i].range);
                if i >= 1 {
                    assert(marked[i - 1].range == nodes[i - 1].range);
                }
            }
            lemma_order_changed_last(levels, marked);
        },
        Lexeme::Other => {},
    }
}

proof fn lemma_route_keeps_order(nodes: Seq<Tree>, run: TextRun)
    requires
        in_order(nodes),
    ensures
        in_order(route_text(nodes, run)),
{
    let routed = route_text(nodes, run);
    if nodes.len() > 0 {
        lemma_push_text_keeps_tasks(nodes[nodes.len() - 1], run);
    }
    assert forall|i: int| 0 <= i < routed.len() implies (#[trigger] routed[i]).range.start
        <= routed[i].range.end && (i >= 1 ==> routed[i - 1].range.end
        <= routed[i].range.start) by {
        assert(routed[i].range == nodes[i].range);
        if i >= 1 {
            assert(routed[i - 1].range == nodes[i - 1].range);
        }
    }
}

proof fn lemma_run_in_order(lexemes: Seq<(Lexeme, Range<usize>)>)
    requires
        blocks_follow(lexemes),
    ensures
        levels_in_order(run(lexemes)),
    decreases lexemes.len(),
{
    lemma_run_well_stacked(lexemes);
    if lexemes.len() > 0 {
        let shorter = lexemes.drop_last();
        assert forall|i: int|
            0 <= i < shorter.len() && opens_block(
                (#[trigger] shorter[i]).0,
            ) implies follows_last(run(shorter.take(i)), shorter[i].1) by {
            assert(shorter[i] == lexemes[i]);
            assert(shorter.take(i) =~= lexemes.take(i));
        }
        lemma_run_in_order(shorter);
        lemma_run_well_stacked(shorter);
        let last = lexemes.len() - 1;
        assert(lexemes.take(last) =~= shorter);
        assert(lexemes[last] == lexemes.last());
        lemma_step_keeps_order(run(shorter), lexemes[last].0, lexemes[last].1);
    } else {
        assert(in_order(start()[0].nodes));
    }
}

proof fn lemma_finish_in_order(levels: Seq<Level>)
    requires
        levels.len() >= 1,
        levels_in_order(levels),
    ensures
        in_order(finish(levels)),
    decreases levels.len(),
{
    if levels.len() == 1 {
        assert(in_order(levels[0].nodes));
    } else {
        lemma_close_keeps_order(levels);
        lemma_finish_in_order(close_level(levels));
    }
}

/// Nodes that stand in order start one after the other and do not overlap.
pub proof fn lemma_in_order_pairs(nodes: Seq<Tree>, i: int, j: int)
    requires
        in_order(nodes),
        0 <= i < j < nodes.len(),
    ensures
        nodes[i].range.start <= nodes[j].range.start,
        nodes[i].range.end <= nodes[j].range.start,
    decreases j - i,
{
    assert(nodes[j].range.start <= nodes[j].range.end);
    assert(nodes[i].range.start <= nodes[i].range.end);
    assert(nodes[j - 1].range.end <= nodes[j].range.start);
    if i < j - 1 {
        lemma_in_order_pairs(nodes, i, j - 1);
        assert(nodes[j - 1].range.start <= nodes[j - 1].range.end);
    }
}

/// Range monotonicity: where every block starts where the node before it on
/// its level ends, or later, the top-level nodes of the document start one
/// after the other and do not overlap.
pub proof fn lemma_range_monotonicity(lexemes: Seq<(Lexeme, Range<usize>)>, i: int, j: int)
    requires
        blocks_follow(lexemes),
        0 <= i < j < document(lexemes).len(),
    ensures
        document(lexemes)[i].range.start <= document(lexemes)[j].range.start,
        document(lexemes)[i].range.end <= document(lexemes)[j].range.start,
{
    lemma_run_in_order(lexemes);
    lemma_run_well_stacked(lexemes);
    lemma_finish_in_order(run(lexemes));
    lemma_in_order_pairs(document(lexemes), i, j);
}

/// The text runs of a tree in document order: its own, then those of its
/// nodes.
pub open spec fn runs_of(tree: Tree) -> Seq<TextRun>
    decreases tree, 1int,
{
    tree.text + runs_below(tree).flatten()
}

/// The text runs of each node of a tree.
pub open spec fn runs_below(tree: Tree) -> Seq<Seq<TextRun>>
    decreases tree, 0int,
{
    Seq::new(
        tree.nodes.len(),
        |i: int|
            if 0 <= i < tree.nodes.len() {
                runs_of(tree.nodes[i])
            } else {
                Seq::empty()
            },
    )
}

/// The text runs of a sequence of trees in document order.
pub open spec fn runs_in(nodes: Seq<Tree>) -> Seq<TextRun> {
    Seq::new(nodes.len(), |i: int| runs_of(nodes[i])).flatten()
}

/// The text runs of all open levels in document order.
pub open spec fn runs_open(levels: Seq<Level>) -> Seq<TextRun>
    decreases levels.len(),
{
    if levels.len() == 0 {
        Seq::empty()
    } else {
        runs_open(levels.drop_last()) + runs_in(levels.last().nodes)
    }
}

/// The text run that an event brings, if it brings one.
pub open spec fn run_of(lexeme: Lexeme) -> Seq<TextRun> {
    match lexeme {
        Lexeme::Text(content) => seq![TextRun { content, style: None }],
        Lexeme::Code(content) => seq![
            TextRun { content, style: Some(crate::markdown::node::Style::Code) },
        ],
        _ => Seq::empty(),
    }
}

/// The text runs that the events bring, in the order of the events.
pub open spec fn event_runs(lexemes: Seq<(Lexeme, Range<usize>)>) -> Seq<TextRun>
    decreases lexemes.len(),
{
    if lexemes.len() == 0 {
        Seq::empty()
    } else {
        event_runs(lexemes.drop_last()) + run_of(lexemes.last().0)
    }
}

/// Whether a tree has the shape of a node: a container has no text and a leaf
/// has no nodes, all the way down.
pub open spec fn shaped(tree: Tree) -> bool
    decreases tree,
{
    &&& tree.block.is_container() ==> tree.text.len() == 0
    &&& !tree.block.is_container() ==> tree.nodes.len() == 0
    &&& forall|i: int| 0 <= i < tree.nodes.len() ==> shaped(#[trigger] tree.nodes[i])
}

/// Whether text that reaches a tree finds a leaf: the tree is a leaf, or its
/// last node takes text.
pub open spec fn takes_text(tree: Tree) -> bool
    decreases tree,
{
    if tree.block.is_container() {
        tree.nodes.len() > 0 && takes_text(tree.nodes[tree.nodes.len() - 1])
    } else {
        true
    }
}

/// Whether an event that arrives now loses no text: text finds a leaf, and a
/// task marker finds a leaf or nothing.
pub open spec fn lands(levels: Seq<Level>, lexeme: Lexeme) -> bool {
    let nodes = levels.last().nodes;
    match lexeme {
        Lexeme::Text(_) | Lexeme::Code(_) => nodes.len() > 0 && takes_text(nodes.last()),
        Lexeme::TaskListMarker(_) => nodes.len() > 0 ==> !nodes.last().block.is_container(),
        _ => true,
    }
}

/// Whether every text of the events finds a leaf, and every task marker a leaf
/// or nothing.
pub open spec fn text_lands(lexemes: Seq<(Lexeme, Range<usize>)>) -> bool {
    forall|i: int|
        0 <= i < lexemes.len() ==> lands(run(lexemes.take(i)), (#[trigger] lexemes[i]).0)
}

/// The runs of a tree are its own followed by those of its nodes.
pub proof fn lemma_runs_of(tree: Tree)
    ensures
        runs_of(tree) == tree.text + runs_in(tree.nodes),
{
    assert(runs_below(tree) =~= Seq::new(tree.nodes.len(), |i: int| runs_of(tree.nodes[i])));
}

/// One tree more brings its runs at the end.
pub proof fn lemma_runs_in_push(nodes: Seq<Tree>, tree: Tree)
    ensures
        runs_in(nodes.push(tree)) == runs_in(nodes) + runs_of(tree),
{
    let parts = Seq::new(nodes.len(), |i: int| runs_of(nodes[i]));
    let more = Seq::new(nodes.push(tree).len(), |i: int| runs_of(nodes.push(tree)[i]));
    assert(more =~= parts.push(runs_of(tree)));
    parts.lemma_flatten_push(runs_of(tree));
}

/// Another last tree brings its runs in place of those of the last tree.
proof fn lemma_runs_in_last(nodes: Seq<Tree>, tree: Tree, extra: Seq<TextRun>)
    requires
        nodes.len() > 0,
        runs_of(tree) == runs_of(nodes.last()) + extra,
    ensures
        runs_in(nodes.update(nodes.len() - 1, tree)) == runs_in(nodes) + extra,
{
    let front = nodes.drop_last();
    assert(nodes =~= front.push(nodes.last()));
    assert(nodes.update(nodes.len() - 1, tree) =~= front.push(tree));
    lemma_runs_in_push(front, nodes.last());
    lemma_runs_in_push(front, tree);
    assert(runs_in(front) + (runs_of(nodes.last()) + extra) =~= (runs_in(front) + runs_of(
        nodes.last(),
    )) + extra);
}

/// Text that finds a leaf is the new last run of the tree; and text leaves the
/// shape of a tree as it is.
proof fn lemma_push_text_runs(tree: Tree, run: TextRun)
    requires
        shaped(tree),
    ensures
        shaped(push_text(tree, run)),
        takes_text(tree) ==> runs_of(push_text(tree, run)) == runs_of(tree).push(run),
        !takes_text(tree) ==> push_text(tree, run) == tree,
    decreases tree,
{
    let pushed = push_text(tree, run);
    lemma_runs_of(tree);
    lemma_runs_of(pushed);
    if tree.block.is_container() {
        if tree.nodes.len() > 0 {
            let last = tree.nodes.len() - 1;
            assert(shaped(tree.nodes[last]));
            lemma_push_text_runs(tree.nodes[last], run);
            assert forall|i: int| 0 <= i < pushed.nodes.len() implies shaped(
                #[trigger] pushed.nodes[i],
            ) by {
                if i != last {
                    assert(pushed.nodes[i] == tree.nodes[i]);
                    assert(shaped(tree.nodes[i]));
                }
            }
            if takes_text(tree) {
                assert(runs_of(tree.nodes[last]).push(run) =~= runs_of(tree.nodes[last])
                    + seq![run]);
                lemma_runs_in_last(tree.nodes, push_text(tree.nodes[last], run), seq![run]);
                assert(runs_of(tree).push(run) =~= tree.text + (runs_in(tree.nodes) + seq![run]));
            } else {
                assert(pushed.nodes =~= tree.nodes);
            }
        }
    } else {
        assert(pushed.nodes =~= Seq::<Tree>::empty());
        assert(runs_in(tree.nodes) =~= Seq::<TextRun>::empty());
        assert(runs_in(pushed.nodes) =~= Seq::<TextRun>::empty());
        assert(runs_of(pushed) =~= runs_of(tree).push(run));
    }
}

/// Whether every node of the open levels has the shape of a node.
pub open spec fn levels_shaped(levels: Seq<Level>) -> bool {
    forall|k: int, i: int|
        0 <= k < levels.len() && 0 <= i < levels[k].nodes.len() ==> shaped(
            #[trigger] levels[k].nodes[i],
        )
}

proof fn lemma_runs_open_with_nodes(levels: Seq<Level>, nodes: Seq<Tree>)
    requires
        levels.len() >= 1,
    ensures
        runs_open(with_nodes(levels, nodes)) == runs_open(levels.drop_last()) + runs_in(nodes),
        runs_open(levels) == runs_open(levels.drop_last()) + runs_in(levels.last().nodes),
{
    assert(with_nodes(levels, nodes).drop_last() =~= levels.drop_last());
}

proof fn lemma_close_keeps_runs(levels: Seq<Level>)
    requires
        levels.len() >= 2,
        levels_shaped(levels),
    ensures
        runs_open(close_level(levels)) == runs_open(levels),
        levels_shaped(close_level(levels)),
{
    let top = levels.len() - 1;
    let outer = levels.drop_last();
    let node = container_node(levels[top]);
    let after = close_level(levels);
    lemma_runs_open_with_nodes(outer, outer.last().nodes.push(node));
    lemma_runs_in_push(outer.last().nodes, node);
    lemma_runs_of(node);
    assert(runs_of(node) =~= runs_in(levels[top].nodes));
    assert(runs_open(levels) == runs_open(outer) + runs_in(levels[top].nodes));
    assert(runs_open(outer) == runs_open(outer.drop_last()) + runs_in(outer.last().nodes));
    assert(runs_open(after) =~= runs_open(levels));
    assert forall|k: int, i: int|
        0 <= k < after.len() && 0 <= i < after[k].nodes.len() implies shaped(
        #[trigger] after[k].nodes[i],
    ) by {
        if k == top - 1 && i == levels[top - 1].nodes.len() {
            assert forall|j: int| 0 <= j < node.nodes.len() implies shaped(
                #[trigger] node.nodes[j],
            ) by {
                assert(shaped(levels[top].nodes[j]));
            }
        } else {
            assert(after[k].nodes[i] == levels[k].nodes[i]);
            assert(shaped(levels[k].nodes[i]));
        }
    }
}

proof fn lemma_shaped_changed_last(levels: Seq<Level>, nodes: Seq<Tree>, at: int)
    requires
        levels.len() >= 1,
        levels_shaped(levels),
        0 <= at < nodes.len(),
        nodes.len() == levels.last().nodes.len() || (nodes.len() == levels.last().nodes.len() + 1
            && at == nodes.len() - 1),
        forall|i: int| 0 <= i < nodes.len() && i != at ==> nodes[i] == levels.last().nodes[i],
        shaped(nodes[at]),
    ensures
        levels_shaped(with_nodes(levels, nodes)),
{
    let after = with_nodes(levels, nodes);
    let top = levels.len() - 1;
    assert forall|k: int, i: int|
        0 <= k < after.len() && 0 <= i < after[k].nodes.len() implies shaped(
        #[trigger] after[k].nodes[i],
    ) by {
        if !(k == top && i == at) {
            assert(after[k].nodes[i] == levels[k].nodes[i]);
            assert(shaped(levels[k].nodes[i]));
        }
    }
}

proof fn lemma_step_keeps_runs(levels: Seq<Level>, lexeme: Lexeme, range: Range<usize>)
    requires
        well_stacked(levels),
        levels_shaped(levels),
        lands(levels, lexeme),
    ensures
        levels_shaped(step(levels, lexeme, range)),
        runs_open(step(levels, lexeme, range)) == runs_open(levels) + run_of(lexeme),
{
    let after = step(levels, lexeme, range);
    let top = levels.len() - 1;
    let nodes = levels[top].nodes;
    assert(runs_open(levels) + Seq::<TextRun>::empty() =~= runs_open(levels));
    match lexeme {
        Lexeme::End(end) => {
            if after != levels {
                lemma_close_keeps_runs(levels);
            }
        },
        Lexeme::Start(element) => {
            if opened_container(element) is Some {
                assert(after.drop_last() =~= levels);
                assert(runs_in(Seq::<Tree>::empty()) =~= Seq::<TextRun>::empty());
                assert(runs_open(after) =~= runs_open(levels));
                assert forall|k: int, i: int|
                    0 <= k < after.len() && 0 <= i < after[k].nodes.len() implies shaped(
                    #[trigger] after[k].nodes[i],
                ) by {
                    assert(shaped(levels[k].nodes[i]));
                }
            } else if opened_leaf(element) is Some {
                let leaf = blank(opened_leaf(element)->0, range);
                assert(shaped(leaf));
                lemma_shaped_changed_last(levels, nodes.push(leaf), nodes.len() as int);
                lemma_runs_open_with_nodes(levels, nodes.push(leaf));
                lemma_runs_in_push(nodes, leaf);
                lemma_runs_of(leaf);
                assert(runs_in(leaf.nodes) =~= Seq::<TextRun>::empty());
                assert(runs_of(leaf) =~= Seq::<TextRun>::empty());
                assert(runs_in(nodes) + Seq::<TextRun>::empty() =~= runs_in(nodes));
            }
        },
        Lexeme::Text(content) => {
            lemma_route_runs(levels, TextRun { content, style: None });
        },
        Lexeme::Code(content) => {
            lemma_route_runs(
                levels,
                TextRun { content, style: Some(crate::markdown::node::Style::Code) },
            );
        },
        Lexeme::TaskListMarker(checked) => {
            if nodes.len() > 0 {
                let last = nodes[nodes.len() - 1];
                let task = as_task(last, checked);
                assert(shaped(levels[top].nodes[nodes.len() - 1]));
                assert(shaped(task));
                lemma_runs_of(last);
                lemma_runs_of(task);
                assert(last.nodes =~= task.nodes);
                assert(runs_of(task) =~= runs_of(last) + Seq::<TextRun>::empty());
                lemma_runs_in_last(nodes, task, Seq::empty());
                lemma_shaped_changed_last(levels, mark_task(nodes, checked), nodes.len() - 1);
                lemma_runs_open_with_nodes(levels, mark_task(nodes, checked));
                assert(runs_in(nodes) + Seq::<TextRun>::empty() =~= runs_in(nodes));
            } else {
                assert(after =~= levels);
            }
        },
        Lexeme::Other => {},
    }
}

proof fn lemma_route_runs(levels: Seq<Level>, run: TextRun)
    requires
        levels.len() >= 1,
        levels_shaped(levels),
        levels.last().nodes.len() > 0,
        takes_text(levels.last().nodes.last()),
    ensures
        levels_shaped(with_nodes(levels, route_text(levels.last().nodes, run))),
        runs_open(with_nodes(levels, route_text(levels.last().nodes, run))) == runs_open(levels)
            + seq![run],
{
    let top = levels.len() - 1;
    let nodes = levels[top].nodes;
    let last = nodes[nodes.len() - 1];
    assert(shaped(levels[top].nodes[nodes.len() - 1]));
    lemma_push_text_runs(last, run);
    assert(runs_of(last).push(run) =~= runs_of(last) + seq![run]);
    lemma_runs_in_last(nodes, push_text(last, run), seq![run]);
    lemma_shaped_changed_last(levels, route_text(nodes, run), nodes.len() - 1);
    lemma_runs_open_with_nodes(levels, route_text(nodes, run));
    assert(runs_open(levels.drop_last()) + (runs_in(nodes) + seq![run]) =~= (runs_open(
        levels.drop_last(),
    ) + runs_in(nodes)) + seq![run]);
}

proof fn lemma_run_keeps_runs(lexemes: Seq<(Lexeme, Range<usize>)>)
    requires
        text_lands(lexemes),
    ensures
        levels_shaped(run(lexemes)),
        runs_open(run(lexemes)) == event_runs(lexemes),
    decreases lexemes.len(),
{
    if lexemes.len() > 0 {
        let shorter = lexemes.drop_last();
        assert forall|i: int| 0 <= i < shorter.len() implies lands(
            run(shorter.take(i)),
            (#[trigger] shorter[i]).0,
        ) by {
            assert(shorter[i] == lexemes[i]);
            assert(shorter.take(i) =~= lexemes.take(i));
        }
        lemma_run_keeps_runs(shorter);
        lemma_run_well_stacked(shorter);
        let last = lexemes.len() - 1;
        assert(lexemes.take(last) =~= shorter);
        assert(lexemes[last] == lexemes.last());
        lemma_step_keeps_runs(run(shorter), lexemes[last].0, lexemes[last].1);
    } else {
        assert(runs_in(start()[0].nodes) =~= Seq::<TextRun>::empty());
        assert(start().drop_last() =~= Seq::<Level>::empty());
        assert(runs_open(Seq::<Level>::empty()) =~= Seq::<TextRun>::empty());
        assert(runs_open(start()) =~= Seq::<TextRun>::empty());
    }
}

proof fn lemma_finish_keeps_runs(levels: Seq<Level>)
    requires
        levels.len() >= 1,
        levels_shaped(levels),
    ensures
        runs_in(finish(levels)) == runs_open(levels),
    decreases levels.len(),
{
    if levels.len() == 1 {
        assert(levels.drop_last() =~= Seq::<Level>::empty());
        assert(runs_open(Seq::<Level>::empty()) =~= Seq::<TextRun>::empty());
        assert(runs_open(levels) =~= runs_in(levels[0].nodes));
    } else {
        lemma_close_keeps_runs(levels);
        lemma_finish_keeps_runs(close_level(levels));
        assert(finish(levels) == finish(close_level(levels)));
    }
}

/// Text fidelity: where every text of the events finds a leaf, the text runs
/// of the document, read in document order, are the text runs that the events
/// bring, in the order of the events: none is lost, none is added, and each
/// keeps its content and its style.
pub proof fn lemma_text_fidelity(lexemes: Seq<(Lexeme, Range<usize>)>)
    requires
        text_lands(lexemes),
    ensures
        runs_in(document(lexemes)) == event_runs(lexemes),
{
    lemma_run_keeps_runs(lexemes);
    lemma_run_well_stacked(lexemes);
    lemma_finish_keeps_runs(run(lexemes));
}

/// Whether the nodes of a tree, and of every tree in it, stand in order.
pub open spec fn in_order_within(tree: Tree) -> bool
    decreases tree,
{
    in_order(tree.nodes) && forall|i: int|
        0 <= i < tree.nodes.len() ==> in_order_within(#[trigger] tree.nodes[i])
}

/// Whether every node of the open levels has its nodes in order, all the way
/// down.
pub open spec fn levels_in_order_within(levels: Seq<Level>) -> bool {
    forall|k: int, i: int|
        0 <= k < levels.len() && 0 <= i < levels[k].nodes.len() ==> in_order_within(
            #[trigger] levels[k].nodes[i],
        )
}

proof fn lemma_push_text_keeps_order_within(tree: Tree, run: TextRun)
    requires
        in_order_within(tree),
    ensures
        in_order_within(push_text(tree, run)),
    decreases tree,
{
    let pushed = push_text(tree, run);
    if tree.block.is_container() && tree.nodes.len() > 0 {
        let last = tree.nodes.len() - 1;
        assert(in_order_within(tree.nodes[last]));
        lemma_push_text_keeps_order_within(tree.nodes[last], run);
        lemma_route_keeps_order(tree.nodes, run);
        assert(pushed.nodes =~= route_text(tree.nodes, run));
        assert forall|i: int| 0 <= i < pushed.nodes.len() implies in_order_within(
            #[trigger] pushed.nodes[i],
        ) by {
            if i != last {
                assert(pushed.nodes[i] == tree.nodes[i]);
                assert(in_order_within(tree.nodes[i]));
            }
        }
    } else if !tree.block.is_container() {
        assert(pushed.nodes == tree.nodes);
        assert forall|i: int| 0 <= i < pushed.nodes.len() implies in_order_within(
            #[trigger] pushed.nodes[i],
        ) by {
            assert(in_order_within(tree.nodes[i]));
        }
    }
}

proof fn lemma_within_changed_last(levels: Seq<Level>, nodes: Seq<Tree>, at: int)
    requires
        levels.len() >= 1,
        levels_in_order_within(levels),
        0 <= at < nodes.len(),
        nodes.len() == levels.last().nodes.len() || (nodes.len() == levels.last().nodes.len() + 1
            && at == nodes.len() - 1),
        forall|i: int| 0 <= i < nodes.len() && i != at ==> nodes[i] == levels.last().nodes[i],
        in_order_within(nodes[at]),
    ensures
        levels_in_order_within(with_nodes(levels, nodes)),
{
    let after = with_nodes(levels, nodes);
    let top = levels.len() - 1;
    assert forall|k: int, i: int|
        0 <= k < after.len() && 0 <= i < after[k].nodes.len() implies in_order_within(
        #[trigger] after[k].nodes[i],
    ) by {
        if !(k == top && i == at) {
            assert(after[k].nodes[i] == levels[k].nodes[i]);
            assert(in_order_within(levels[k].nodes[i]));
        }
    }
}

proof fn lemma_close_keeps_order_within(levels: Seq<Level>)
    requires
        levels.len() >= 2,
        levels_in_order(levels),
        levels_in_order_within(levels),
    ensures
        levels_in_order_within(close_level(levels)),
{
    let after = close_level(levels);
    let top = levels.len() - 1;
    let node = container_node(levels[top]);
    assert(in_order(levels[top].nodes));
    assert(in_order_within(node)) by {
        assert forall|i: int| 0 <= i < node.nodes.len() implies in_order_within(
            #[trigger] node.nodes[i],
        ) by {
            assert(in_order_within(levels[top].nodes[i]));
        }
    }
    assert forall|k: int, i: int|
        0 <= k < after.len() && 0 <= i < after[k].nodes.len() implies in_order_within(
        #[trigger] after[k].nodes[i],
    ) by {
        if !(k == top - 1 && i == levels[top - 1].nodes.len()) {
            assert(after[k].nodes[i] == levels[k].nodes[i]);
            assert(in_order_within(levels[k].nodes[i]));
        }
    }
}

proof fn lemma_step_keeps_order_within(levels: Seq<Level>, lexeme: Lexeme, range: Range<usize>)
    requires
        well_stacked(levels),
        levels_in_order(levels),
        levels_in_order_within(levels),
    ensures
        levels_in_order_within(step(levels, lexeme, range)),
{
    let after = step(levels, lexeme, range);
    let top = levels.len() - 1;
    let nodes = levels[top].nodes;
    match lexeme {
        Lexeme::End(end) => {
            if after != levels {
                lemma_close_keeps_order_within(levels);
            }
        },
        Lexeme::Start(element) => {
            if opened_container(element) is Some {
                assert forall|k: int, i: int|
                    0 <= k < after.len() && 0 <= i < after[k].nodes.len() implies in_order_within(
                    #[trigger] after[k].nodes[i],
                ) by {
                    assert(in_order_within(levels[k].nodes[i]));
                }
            } else if opened_leaf(element) is Some {
                let leaf = blank(opened_leaf(element)->0, range);
                assert(in_order_within(leaf));
                lemma_within_changed_last(levels, nodes.push(leaf), nodes.len() as int);
            }
        },
        Lexeme::Text(content) => {
            let run = TextRun { content, style: None };
            if nodes.len() > 0 {
                assert(in_order_within(levels[top].nodes[nodes.len() - 1]));
                lemma_push_text_keeps_order_within(nodes[nodes.len() - 1], run);
                lemma_within_changed_last(levels, route_text(nodes, run), nodes.len() - 1);
            } else {
                assert(after =~= levels);
            }
        },
        Lexeme::Code(content) => {
            let run = TextRun { content, style: Some(crate::markdown::node::Style::Code) };
            if nodes.len() > 0 {
                assert(in_order_within(levels[top].nodes[nodes.len() - 1]));
                lemma_push_text_keeps_order_within(nodes[nodes.len() - 1], run);
                lemma_within_changed_last(levels, route_text(nodes, run), nodes.len() - 1);
            } else {
                assert(after =~= levels);
            }
        },
        Lexeme::TaskListMarker(checked) => {
            if nodes.len() > 0 {
                assert(in_order_within(as_task(nodes[nodes.len() - 1], checked)));
                lemma_within_changed_last(levels, mark_task(nodes, checked), nodes.len() - 1);
            } else {
                assert(after =~= levels);
            }
        },
        Lexeme::Other => {},
    }
}

proof fn lemma_run_in_order_within(lexemes: Seq<(Lexeme, Range<usize>)>)
    requires
        blocks_follow(lexemes),
    ensures
        levels_in_order(run(lexemes)),
        levels_in_order_within(run(lexemes)),
    decreases lexemes.len(),
{
    lemma_run_in_order(lexemes);
    if lexemes.len() > 0 {
        let shorter = lexemes.drop_last();
        assert forall|i: int|
            0 <= i < shorter.len() && opens_block(
                (#[trigger] shorter[i]).0,
            ) implies follows_last(run(shorter.take(i)), shorter[i].1) by {
            assert(shorter[i] == lexemes[i]);
            assert(shorter.take(i) =~= lexemes.take(i));
        }
        lemma_run_in_order_within(shorter);
        lemma_run_well_stacked(shorter);
        lemma_step_keeps_order_within(run(shorter), lexemes.last().0, lexemes.last().1);
    }
}

proof fn lemma_finish_in_order_within(levels: Seq<Level>)
    requires
        levels.len() >= 1,
        levels_in_order(levels),
        levels_in_order_within(levels),
    ensures
        forall|i: int|
            0 <= i < finish(levels).len() ==> in_order_within(#[trigger] finish(levels)[i]),
    decreases levels.len(),
{
    if levels.len() == 1 {
        assert forall|i: int| 0 <= i < finish(levels).len() implies in_order_within(
            #[trigger] finish(levels)[i],
        ) by {
            assert(in_order_within(levels[0].nodes[i]));
        }
    } else {
        lemma_close_keeps_order(levels);
        lemma_close_keeps_order_within(levels);
        lemma_finish_in_order_within(close_level(levels));
        assert(finish(levels) == finish(close_level(levels)));
    }
}

/// Order among siblings: where every block starts where the node before it on
/// its level ends, or later, the nodes of every list and block quote of the
/// document stand in order, as the top-level nodes do.
pub proof fn lemma_siblings_in_order(lexemes: Seq<(Lexeme, Range<usize>)>)
    requires
        blocks_follow(lexemes),
    ensures
        in_order(document(lexemes)),
        forall|i: int|
            0 <= i < document(lexemes).len() ==> in_order_within(#[trigger] document(lexemes)[i]),
{
    lemma_run_in_order_within(lexemes);
    lemma_run_well_stacked(lexemes);
    lemma_finish_in_order(run(lexemes));
    lemma_finish_in_order_within(run(lexemes));
}

/// The shape of nodes: a block quote or a list holds nodes and no text, and
/// every other node holds text and no nodes, all the way down.
pub proof fn lemma_node_shaped(node: crate::markdown::node::Node)
    ensures
        shaped(node@),
    decreases node,
{
    crate::markdown::node::lemma_view_children(node);
    let children = node.markdown_node.children();
    assert forall|i: int| 0 <= i < node@.nodes.len() implies shaped(#[trigger] node@.nodes[i]) by {
        assert(node@.nodes[i] == children[i]@);
        match node.markdown_node {
            crate::markdown::node::MarkdownNode::BlockQuote { nodes, .. } => {
                assert(children[i] == nodes[i]);
                lemma_node_shaped(nodes[i]);
            },
            crate::markdown::node::MarkdownNode::List { nodes, .. } => {
                assert(children[i] == nodes[i]);
                lemma_node_shaped(nodes[i]);
            },
            _ => {},
        }
    }
}

} // verus!
