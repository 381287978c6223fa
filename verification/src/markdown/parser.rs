//! The tree builder: turns the flat sequence of lexical events of a Markdown
//! document into nested nodes, each with the range of source text it covers.
use crate::markdown::event::{lexemes, markdown_lexemes, tokenize, Element, ElementEnd, Lexeme, Token};
use crate::markdown::node::{
    lemma_view_children, trees, Block, ListKind, MarkdownNode, Node, Style, TaskListItemKind,
    Text, TextNode, TextRun, Tree,
};
use std::ops::Range;
use vstd::prelude::*;

verus! {

/// A level of nesting that is still open while the events are read: the document
/// itself, or a container whose closing event has not arrived yet.
pub struct Level {
    /// The element that opened the level; `None` for the document.
    pub tag: Option<Element>,
    /// The range of the opening event.
    pub range: Range<usize>,
    /// The nodes that the level holds so far.
    pub nodes: Seq<Tree>,
}

/// A node without text and without children.
pub open spec fn blank(block: Block, range: Range<usize>) -> Tree {
    Tree { block, text: Seq::empty(), nodes: Seq::empty(), range }
}

/// The kind of list that a list element with the given start number opens.
pub open spec fn list_kind(start: Option<u64>) -> ListKind {
    match start {
        Some(first) => ListKind::Ordered(first),
        None => ListKind::Unordered,
    }
}

/// The container block that an element opens, if it opens one.
pub open spec fn opened_container(element: Element) -> Option<Block> {
    match element {
        Element::BlockQuote(kind) => Some(Block::BlockQuote(kind)),
        Element::List(start) => Some(Block::List(list_kind(start))),
        _ => None,
    }
}

/// The leaf block that an element opens, if it opens one.
pub open spec fn opened_leaf(element: Element) -> Option<Block> {
    match element {
        Element::Heading { level } => Some(Block::Heading(level)),
        Element::CodeBlock => Some(Block::CodeBlock(None)),
        Element::Paragraph => Some(Block::Paragraph),
        Element::Item => Some(Block::Item),
        _ => None,
    }
}

/// Whether a closing element is the end of an opening element of the same kind.
pub open spec fn closes(element: Element, end: ElementEnd) -> bool {
    match (element, end) {
        (Element::Paragraph, ElementEnd::Paragraph) => true,
        (Element::Heading { .. }, ElementEnd::Heading) => true,
        (Element::BlockQuote(_), ElementEnd::BlockQuote) => true,
        (Element::CodeBlock, ElementEnd::CodeBlock) => true,
        (Element::List(_), ElementEnd::List) => true,
        (Element::Item, ElementEnd::Item) => true,
        _ => false,
    }
}

/// A tree after a text run has reached it: a leaf takes the run at the end of
/// its text, a container hands it to its last child, and a container without
/// children drops it.
pub open spec fn push_text(tree: Tree, run: TextRun) -> Tree
    decreases tree,
{
    if tree.block.is_container() {
        if tree.nodes.len() > 0 {
            Tree {
                nodes: tree.nodes.update(
                    tree.nodes.len() - 1,
                    push_text(tree.nodes[tree.nodes.len() - 1], run),
                ),
                ..tree
            }
        } else {
            tree
        }
    } else {
        Tree { text: tree.text.push(run), ..tree }
    }
}

/// The nodes of a level after a text run has arrived: the last node takes it.
pub open spec fn route_text(nodes: Seq<Tree>, run: TextRun) -> Seq<Tree> {
    if nodes.len() > 0 {
        nodes.update(nodes.len() - 1, push_text(nodes[nodes.len() - 1], run))
    } else {
        nodes
    }
}

/// The kind of task list item that a marker stands for.
pub open spec fn task_kind(checked: bool) -> TaskListItemKind {
    if checked {
        TaskListItemKind::Checked
    } else {
        TaskListItemKind::Unchecked
    }
}

/// The task list item that takes the place of a node: it keeps the range and
/// the text of the node.
pub open spec fn as_task(tree: Tree, checked: bool) -> Tree {
    Tree {
        block: Block::TaskListItem(task_kind(checked)),
        text: tree.text,
        nodes: Seq::empty(),
        range: tree.range,
    }
}

/// The nodes of a level after a task marker has arrived: the last node becomes
/// a task list item.
pub open spec fn mark_task(nodes: Seq<Tree>, checked: bool) -> Seq<Tree> {
    if nodes.len() > 0 {
        nodes.update(nodes.len() - 1, as_task(nodes[nodes.len() - 1], checked))
    } else {
        nodes
    }
}

/// The node that a container level becomes when it closes.
pub open spec fn container_node(level: Level) -> Tree {
    Tree {
        block: match level.tag {
            Some(element) => match opened_container(element) {
                Some(block) => block,
                None => Block::BlockQuote(None),
            },
            None => Block::BlockQuote(None),
        },
        text: Seq::empty(),
        nodes: level.nodes,
        range: level.range,
    }
}

/// The open levels with the nodes of the innermost one replaced.
pub open spec fn with_nodes(levels: Seq<Level>, nodes: Seq<Tree>) -> Seq<Level> {
    levels.update(levels.len() - 1, Level { nodes, ..levels[levels.len() - 1] })
}

/// The open levels after the innermost one has closed: its node is the new last
/// node of the level around it.
pub open spec fn close_level(levels: Seq<Level>) -> Seq<Level> {
    let outer = levels.drop_last();
    with_nodes(outer, outer[outer.len() - 1].nodes.push(container_node(levels[levels.len() - 1])))
}

/// The open levels after one more event.
pub open spec fn step(levels: Seq<Level>, lexeme: Lexeme, range: Range<usize>) -> Seq<Level> {
    let nodes = levels[levels.len() - 1].nodes;
    match lexeme {
        Lexeme::Start(element) => {
            if opened_container(element) is Some {
                levels.push(Level { tag: Some(element), range, nodes: Seq::empty() })
            } else {
                match opened_leaf(element) {
                    Some(block) => with_nodes(levels, nodes.push(blank(block, range))),
                    None => levels,
                }
            }
        },
        Lexeme::End(end) => {
            match levels[levels.len() - 1].tag {
                Some(element) => if levels.len() >= 2 && closes(element, end) {
                    close_level(levels)
                } else {
                    levels
                },
                None => levels,
            }
        },
        Lexeme::Text(content) => with_nodes(
            levels,
            route_text(nodes, TextRun { content, style: None }),
        ),
        Lexeme::Code(content) => with_nodes(
            levels,
            route_text(nodes, TextRun { content, style: Some(Style::Code) }),
        ),
        Lexeme::TaskListMarker(checked) => with_nodes(levels, mark_task(nodes, checked)),
        Lexeme::Other => levels,
    }
}

/// The one open level before any event: the document, without nodes.
pub open spec fn start() -> Seq<Level> {
    seq![Level { tag: None, range: Range { start: 0usize, end: 0usize }, nodes: Seq::empty() }]
}

/// The open levels after a sequence of events.
pub open spec fn run(lexemes: Seq<(Lexeme, Range<usize>)>) -> Seq<Level>
    decreases lexemes.len(),
{
    if lexemes.len() == 0 {
        start()
    } else {
        step(run(lexemes.drop_last()), lexemes.last().0, lexemes.last().1)
    }
}

/// The nodes of the document once every level that is still open has closed.
pub open spec fn finish(levels: Seq<Level>) -> Seq<Tree>
    decreases levels.len(),
{
    if levels.len() == 0 {
        Seq::empty()
    } else if levels.len() == 1 {
        levels[0].nodes
    } else {
        finish(close_level(levels))
    }
}

/// The top-level nodes of the document that a sequence of events describes.
pub open spec fn document(lexemes: Seq<(Lexeme, Range<usize>)>) -> Seq<Tree> {
    finish(run(lexemes))
}

/// Returns `true` if the element should be closed upon encountering the given end.
pub fn matches_tag_end(tag: &Element, tag_end: &ElementEnd) -> (b: bool)
    ensures
        b == closes(*tag, *tag_end),
{
    match (tag, tag_end) {
        (Element::Paragraph, ElementEnd::Paragraph) => true,
        (Element::Heading { .. }, ElementEnd::Heading) => true,
        (Element::BlockQuote(_), ElementEnd::BlockQuote) => true,
        (Element::CodeBlock, ElementEnd::CodeBlock) => true,
        (Element::List(_), ElementEnd::List) => true,
        (Element::Item, ElementEnd::Item) => true,
        _ => false,
    }
}

impl Node {
    /// Creates a new `Node` from the provided [`MarkdownNode`] and source range.
    pub fn new(markdown_node: MarkdownNode, source_range: Range<usize>) -> (node: Self)
        ensures
            node.markdown_node == markdown_node,
            node.source_range == source_range,
    {
        Self { markdown_node, source_range }
    }

    /// Pushes a [`TextNode`] into the markdown node, if it contains a text buffer.
    ///
    /// If the markdown node is a block quote or a list, the [`TextNode`] will be
    /// pushed into the last child [`Node`], if any.
    pub fn push_text_node(&mut self, node: TextNode)
        ensures
            final(self)@ == push_text(old(self)@, node@),
        decreases *old(self),
    {
        proof {
            lemma_view_children(*self);
        }
        match &mut self.markdown_node {
            MarkdownNode::Paragraph { text } => text.push(node),
            MarkdownNode::Heading { text, .. } => text.push(node),
            MarkdownNode::CodeBlock { text, .. } => text.push(node),
            MarkdownNode::TaskListItem { text, .. } => text.push(node),
            MarkdownNode::Item { text } => text.push(node),
            MarkdownNode::List { nodes, .. } => {
                let n = nodes.len();
                if n > 0 {
                    nodes[n - 1].push_text_node(node);
                }
            },
            MarkdownNode::BlockQuote { nodes, .. } => {
                let n = nodes.len();
                if n > 0 {
                    nodes[n - 1].push_text_node(node);
                }
            },
        }
        proof {
            lemma_view_children(*self);
            assert(self@.nodes =~= push_text(old(self)@, node@).nodes);
        }
    }
}

/// A level of nesting that is still open, with the nodes built for it so far.
pub struct OpenLevel {
    /// The element that opened the level; `None` for the document.
    pub tag: Option<Element>,
    /// The range of the opening event.
    pub range: Range<usize>,
    /// The nodes that the level holds so far.
    pub nodes: Vec<Node>,
}

impl View for OpenLevel {
    type V = Level;

    open spec fn view(&self) -> Level {
        Level { tag: self.tag, range: self.range, nodes: trees(self.nodes@) }
    }
}

/// What a stack of open levels stands for, outermost level first.
pub open spec fn open_levels(levels: Seq<OpenLevel>) -> Seq<Level> {
    Seq::new(levels.len(), |i: int| levels[i]@)
}

/// `Range::clone` on byte offsets gives the same range.
fn copy_range(range: &Range<usize>) -> (res: Range<usize>)
    ensures
        res == *range,
{
    range.clone()
}

/// A parser that holds the lexical events of a Markdown text and builds the
/// nodes of the document from them.
pub struct Parser {
    /// The events of the text, in document order.
    pub tokens: Vec<(Token, Range<usize>)>,
}

impl Parser {
    /// Creates a new [`Parser`] from a Markdown input string: tokenizes the text
    /// with every extension switched on and neighbouring text events merged.
    pub fn new(text: &str) -> (parser: Self)
        ensures
            lexemes(parser.tokens@) == markdown_lexemes(text@),
    {
        Parser { tokens: tokenize(text) }
    }

    /// Appends a node to the innermost open level.
    fn push_node(levels: &mut Vec<OpenLevel>, node: Node)
        requires
            old(levels).len() >= 1,
        ensures
            final(levels).len() == old(levels).len(),
            open_levels(final(levels)@) == with_nodes(
                open_levels(old(levels)@),
                open_levels(old(levels)@).last().nodes.push(node@),
            ),
    {
        let last = levels.len() - 1;
        levels[last].nodes.push(node);
        assert(open_levels(levels@) =~= with_nodes(
            open_levels(old(levels)@),
            open_levels(old(levels)@).last().nodes.push(node@),
        )) by {
            assert(trees(levels@[last as int].nodes@) =~= trees(
                old(levels)@[last as int].nodes@,
            ).push(node@));
        }
    }

    /// Routes a text run to the last node of the innermost open level, if any.
    fn push_text_node(levels: &mut Vec<OpenLevel>, node: TextNode)
        requires
            old(levels).len() >= 1,
        ensures
            final(levels).len() == old(levels).len(),
            open_levels(final(levels)@) == with_nodes(
                open_levels(old(levels)@),
                route_text(open_levels(old(levels)@).last().nodes, node@),
            ),
    {
        let last = levels.len() - 1;
        let count = levels[last].nodes.len();
        if count > 0 {
            levels[last].nodes[count - 1].push_text_node(node);
            assert(trees(levels@[last as int].nodes@) =~= route_text(
                trees(old(levels)@[last as int].nodes@),
                node@,
            ));
        }
        assert(open_levels(levels@) =~= with_nodes(
            open_levels(old(levels)@),
            route_text(open_levels(old(levels)@).last().nodes, node@),
        ));
    }

    /// Replaces the last node of the innermost open level by a task list item
    /// with the same range and text.
    fn set_node(levels: &mut Vec<OpenLevel>, checked: bool)
        requires
            old(levels).len() >= 1,
        ensures
            final(levels).len() == old(levels).len(),
            open_levels(final(levels)@) == with_nodes(
                open_levels(old(levels)@),
                mark_task(open_levels(old(levels)@).last().nodes, checked),
            ),
    {
        let last = levels.len() - 1;
        match levels[last].nodes.pop() {
            Some(node) => {
                proof {
                    lemma_view_children(node);
                }
                let Node { markdown_node, source_range } = node;
                let text = match markdown_node {
                    MarkdownNode::Paragraph { text } => text,
                    MarkdownNode::Heading { text, .. } => text,
                    MarkdownNode::CodeBlock { text, .. } => text,
                    MarkdownNode::TaskListItem { text, .. } => text,
                    MarkdownNode::Item { text } => text,
                    MarkdownNode::List { .. } => Text::new(),
                    MarkdownNode::BlockQuote { .. } => Text::new(),
                };
                let kind = if checked {
                    TaskListItemKind::Checked
                } else {
                    TaskListItemKind::Unchecked
                };
                let task = Node::new(MarkdownNode::TaskListItem { kind, text }, source_range);
                proof {
                    lemma_view_children(task);
                    assert(task@.nodes =~= Seq::<Tree>::empty());
                    assert(task@ == as_task(node@, checked));
                }
                levels[last].nodes.push(task);
                assert(trees(levels@[last as int].nodes@) =~= mark_task(
                    trees(old(levels)@[last as int].nodes@),
                    checked,
                ));
            },
            None => {},
        }
        assert(open_levels(levels@) =~= with_nodes(
            open_levels(old(levels)@),
            mark_task(open_levels(old(levels)@).last().nodes, checked),
        ));
    }

    /// Handles the start of an element: a container opens a level of its own, a
    /// leaf becomes the new last node of the innermost open level, and any other
    /// element leaves no trace.
    pub fn parse_tag(tag: Element, source_range: Range<usize>, levels: &mut Vec<OpenLevel>)
        requires
            old(levels).len() >= 1,
        ensures
            final(levels).len() >= 1,
            open_levels(final(levels)@) == step(
                open_levels(old(levels)@),
                Lexeme::Start(tag),
                source_range,
            ),
    {
        match tag {
            Element::BlockQuote(_) | Element::List(_) => {
                levels.push(OpenLevel { tag: Some(tag), range: source_range, nodes: Vec::new() });
                assert(open_levels(levels@) =~= open_levels(old(levels)@).push(
                    Level { tag: Some(tag), range: source_range, nodes: Seq::empty() },
                )) by {
                    assert(trees(Seq::<Node>::empty()) =~= Seq::<Tree>::empty());
                }
            },
            Element::Heading { level } => {
                let node = Node::new(
                    MarkdownNode::Heading { level, text: Text::new() },
                    source_range,
                );
                proof {
                    lemma_view_children(node);
                    assert(node@.nodes =~= Seq::<Tree>::empty());
                }
                Parser::push_node(levels, node);
            },
            Element::CodeBlock => {
                let node = Node::new(
                    MarkdownNode::CodeBlock { lang: None, text: Text::new() },
                    source_range,
                );
                proof {
                    lemma_view_children(node);
                    assert(node@.nodes =~= Seq::<Tree>::empty());
                }
                Parser::push_node(levels, node);
            },
            Element::Paragraph => {
                let node = Node::new(MarkdownNode::Paragraph { text: Text::new() }, source_range);
                proof {
                    lemma_view_children(node);
                    assert(node@.nodes =~= Seq::<Tree>::empty());
                }
                Parser::push_node(levels, node);
            },
            Element::Item => {
                let node = Node::new(MarkdownNode::Item { text: Text::new() }, source_range);
                proof {
                    lemma_view_children(node);
                    assert(node@.nodes =~= Seq::<Tree>::empty());
                }
                Parser::push_node(levels, node);
            },
            Element::Other => {},
        }
    }

    /// Closes the innermost open level, which is a container: the container
    /// becomes the new last node of the level around it.
    fn close(levels: &mut Vec<OpenLevel>)
        requires
            old(levels).len() >= 2,
            old(levels)@.last().tag is Some,
            opened_container(old(levels)@.last().tag->0) is Some,
        ensures
            final(levels).len() == old(levels).len() - 1,
            open_levels(final(levels)@) == close_level(open_levels(old(levels)@)),
    {
        let ghost before = open_levels(levels@);
        let level = levels.pop().unwrap();
        assert(open_levels(levels@) =~= before.drop_last());
        let OpenLevel { tag, range, nodes } = level;
        let markdown_node = match tag {
            Some(Element::List(start)) => MarkdownNode::List {
                kind: match start {
                    Some(first) => ListKind::Ordered(first),
                    None => ListKind::Unordered,
                },
                nodes,
            },
            Some(Element::BlockQuote(kind)) => MarkdownNode::BlockQuote { kind, nodes },
            _ => MarkdownNode::BlockQuote { kind: None, nodes },
        };
        let node = Node::new(markdown_node, range);
        proof {
            lemma_view_children(node);
            assert(node@ == container_node(before.last()));
        }
        Parser::push_node(levels, node);
    }

    /// Handles the end of an element: it closes the innermost open level if that
    /// is a container of the same kind, and is ignored otherwise.
    fn tag_end(levels: &mut Vec<OpenLevel>, tag_end: ElementEnd)
        requires
            old(levels).len() >= 1,
            well_stacked(open_levels(old(levels)@)),
        ensures
            final(levels).len() >= 1,
            open_levels(final(levels)@) == step(
                open_levels(old(levels)@),
                Lexeme::End(tag_end),
                Range { start: 0usize, end: 0usize },
            ),
    {
        let last = levels.len() - 1;
        match levels[last].tag {
            Some(tag) => {
                if levels.len() >= 2 && matches_tag_end(&tag, &tag_end) {
                    assert(open_levels(levels@)[last as int].tag == Some(tag));
                    Parser::close(levels);
                }
            },
            None => {},
        }
    }

    /// Processes a single event: the open levels afterwards are those of
    /// [`step`].
    fn handle_event(levels: &mut Vec<OpenLevel>, token: &Token, range: &Range<usize>)
        requires
            old(levels).len() >= 1,
            well_stacked(open_levels(old(levels)@)),
        ensures
            final(levels).len() >= 1,
            open_levels(final(levels)@) == step(open_levels(old(levels)@), token@, *range),
            well_stacked(open_levels(final(levels)@)),
    {
        proof {
            lemma_step_well_stacked(open_levels(levels@), token@, *range);
        }
        match token {
            Token::Start(tag) => Parser::parse_tag(*tag, copy_range(range), levels),
            Token::End(tag_end) => Parser::tag_end(levels, *tag_end),
            Token::Text(text) => Parser::push_text_node(levels, TextNode::new(text.clone(), None)),
            Token::Code(text) => Parser::push_text_node(
                levels,
                TextNode::new(text.clone(), Some(Style::Code)),
            ),
            Token::TaskListMarker(checked) => Parser::set_node(levels, *checked),
            Token::Other => {},
        }
    }

    /// Builds the nodes of the document from a sequence of events: reads every
    /// event once, in order, and closes what is still open at the end.
    pub fn parse_events(tokens: &Vec<(Token, Range<usize>)>) -> (nodes: Vec<Node>)
        ensures
            trees(nodes@) == document(lexemes(tokens@)),
    {
        let mut levels: Vec<OpenLevel> = Vec::new();
        levels.push(OpenLevel { tag: None, range: Range { start: 0, end: 0 }, nodes: Vec::new() });
        assert(open_levels(levels@) =~= start()) by {
            assert(trees(Seq::<Node>::empty()) =~= Seq::<Tree>::empty());
        }
        let mut i: usize = 0;
        while i < tokens.len()
            invariant
                i <= tokens.len(),
                levels.len() >= 1,
                well_stacked(open_levels(levels@)),
                open_levels(levels@) == run(lexemes(tokens@).take(i as int)),
            decreases tokens.len() - i,
        {
            Parser::handle_event(&mut levels, &tokens[i].0, &tokens[i].1);
            proof {
                let all = lexemes(tokens@);
                assert(all.take(i + 1).drop_last() =~= all.take(i as int));
                assert(all.take(i + 1).last() == all[i as int]);
            }
            i += 1;
        }
        assert(lexemes(tokens@).take(i as int) =~= lexemes(tokens@));
        while levels.len() >= 2
            invariant
                levels.len() >= 1,
                well_stacked(open_levels(levels@)),
                finish(open_levels(levels@)) == document(lexemes(tokens@)),
            decreases levels.len(),
        {
            let ghost before = open_levels(levels@);
            proof {
                lemma_close_well_stacked(before);
                assert(before.last() == levels@.last()@);
            }
            Parser::close(&mut levels);
        }
        let level = levels.pop().unwrap();
        level.nodes
    }

    /// Consumes the parser, processing all events into a list of [`Node`]s.
    pub fn parse(self) -> (nodes: Vec<Node>)
        ensures
            trees(nodes@) == document(lexemes(self.tokens@)),
    {
        Parser::parse_events(&self.tokens)
    }
}

/// Every open level but the document was opened by a container element.
pub open spec fn well_stacked(levels: Seq<Level>) -> bool {
    &&& levels.len() >= 1
    &&& forall|k: int|
        1 <= k < levels.len() ==> (#[trigger] levels[k]).tag is Some && opened_container(
            levels[k].tag->0,
        ) is Some
}

/// An event leaves the open levels well stacked.
pub proof fn lemma_step_well_stacked(levels: Seq<Level>, lexeme: Lexeme, range: Range<usize>)
    requires
        well_stacked(levels),
    ensures
        well_stacked(step(levels, lexeme, range)),
{
}

/// Closing the innermost level leaves the open levels well stacked.
pub proof fn lemma_close_well_stacked(levels: Seq<Level>)
    requires
        well_stacked(levels),
        levels.len() >= 2,
    ensures
        well_stacked(close_level(levels)),
{
}

/// Parses the given Markdown input into a list of [`Node`]s.
///
/// This is a convenience function for constructing a [`Parser`] and calling
/// [`Parser::parse`].
pub fn from_str(text: &str) -> (nodes: Vec<Node>)
    ensures
        trees(nodes@) == document(markdown_lexemes(text@)),
{
    Parser::new(text).parse()
}

} // verus!
