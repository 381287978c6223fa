//! The Markdown syntax tree: text runs, nodes and their source ranges, with the
//! mathematical views that the contracts of the tree builder speak of.
use std::ops::Range;
use vstd::prelude::*;
use vstd::std_specs::convert::FromSpecImpl;
use vstd::string::StringExecFns;

verus! {

/// `Range::clone` of std: the copy has the bounds of the range it was made from.
pub assume_specification<Idx: Clone>[ <Range<Idx> as Clone>::clone ](range: &Range<Idx>) -> (res:
    Range<Idx>)
    ensures
        cloned(range.start, res.start),
        cloned(range.end, res.end),
;

/// A style that can be applied to a [`TextNode`].
#[derive(Clone, Copy, Debug, PartialEq, Eq, Structural)]
pub enum Style {
    /// Inline code style (e.g. `code`).
    Code,
    /// Italic/emphasis style (e.g. `*emphasis*`).
    Emphasis,
    /// Strikethrough style (e.g. `~~strikethrough~~`).
    Strikethrough,
    /// Bold/strong style (e.g. `**strong**`).
    Strong,
}

/// The marker a plain list item is rendered with.
#[derive(Clone, Copy, Debug, PartialEq, Eq, Structural)]
pub enum ItemKind {
    /// An ordered list item (e.g., `1. item`), storing the numeric index.
    Ordered(u64),
    /// An unordered list item (e.g., `- item`).
    Unordered,
}

/// The state of the checkbox of a task list item.
#[derive(Clone, Copy, Debug, PartialEq, Eq, Structural)]
pub enum TaskListItemKind {
    /// A checkbox item that is marked as done using `- [x]`.
    Checked,
    /// A checkbox item that is unchecked using `- [ ]`.
    Unchecked,
}

/// The six heading levels of Markdown.
#[derive(Clone, Copy, Debug, PartialEq, Eq, Structural)]
pub enum HeadingLevel {
    H1,
    H2,
    H3,
    H4,
    H5,
    H6,
}

impl HeadingLevel {
    /// The level as a number, from 1 for `H1` to 6 for `H6`.
    pub open spec fn spec_number(self) -> int {
        match self {
            HeadingLevel::H1 => 1,
            HeadingLevel::H2 => 2,
            HeadingLevel::H3 => 3,
            HeadingLevel::H4 => 4,
            HeadingLevel::H5 => 5,
            HeadingLevel::H6 => 6,
        }
    }

    /// The level as a number, from 1 for `H1` to 6 for `H6`.
    pub fn number(self) -> (n: u8)
        ensures
            n == self.spec_number(),
            1 <= n <= 6,
    {
        match self {
            HeadingLevel::H1 => 1,
            HeadingLevel::H2 => 2,
            HeadingLevel::H3 => 3,
            HeadingLevel::H4 => 4,
            HeadingLevel::H5 => 5,
            HeadingLevel::H6 => 6,
        }
    }
}

/// Specialized block quote kinds (callouts), as in `> [!NOTE] Some note`.
#[derive(Clone, Copy, Debug, PartialEq, Eq, Structural)]
pub enum BlockQuoteKind {
    Note,
    Tip,
    Important,
    Warning,
    Caution,
}

/// Denotes whether a list is ordered or unordered.
#[derive(Clone, Copy, Debug, PartialEq, Eq, Structural)]
pub enum ListKind {
    /// An ordered list, storing the number of its first item.
    Ordered(u64),
    /// An unordered list.
    Unordered,
}

/// A single unit of text that is optionally styled (e.g., code).
#[derive(Debug, PartialEq)]
pub struct TextNode {
    /// The literal text content.
    pub content: String,
    /// Optional inline style of the text.
    pub style: Option<Style>,
}

/// What a [`TextNode`] stands for: its characters and its style.
pub struct TextRun {
    pub content: Seq<char>,
    pub style: Option<Style>,
}

impl View for TextNode {
    type V = TextRun;

    open spec fn view(&self) -> TextRun {
        TextRun { content: self.content@, style: self.style }
    }
}

impl Clone for TextNode {
    fn clone(&self) -> (res: Self)
        ensures
            res@ == self@,
    {
        TextNode { content: self.content.clone(), style: self.style }
    }
}

impl TextNode {
    /// Creates a new [`TextNode`] from `content` and optional [`Style`].
    pub fn new(content: String, style: Option<Style>) -> (node: Self)
        ensures
            node@ == (TextRun { content: content@, style }),
    {
        Self { content, style }
    }
}

/// The runs that a sequence of text nodes stands for, in order.
pub open spec fn text_runs(nodes: Seq<TextNode>) -> Seq<TextRun> {
    Seq::new(nodes.len(), |i: int| nodes[i]@)
}

/// A list of [`TextNode`]s: the text of a leaf node.
#[derive(Debug, PartialEq)]
pub struct Text(pub Vec<TextNode>);

impl View for Text {
    type V = Seq<TextRun>;

    open spec fn view(&self) -> Seq<TextRun> {
        text_runs(self.0@)
    }
}

impl Clone for Text {
    fn clone(&self) -> (res: Self)
        ensures
            res@ == self@,
    {
        let mut nodes: Vec<TextNode> = Vec::new();
        let mut i: usize = 0;
        while i < self.0.len()
            invariant
                i <= self.0.len(),
                nodes.len() == i,
                forall|j: int| 0 <= j < i ==> nodes[j]@ == self.0[j]@,
            decreases self.0.len() - i,
        {
            nodes.push(self.0[i].clone());
            i += 1;
        }
        assert(text_runs(nodes@) =~= text_runs(self.0@));
        Text(nodes)
    }
}

impl Text {
    /// A text without runs.
    pub fn new() -> (text: Self)
        ensures
            text@ == Seq::<TextRun>::empty(),
    {
        let text = Text(Vec::new());
        assert(text@ =~= Seq::<TextRun>::empty());
        text
    }

    /// Appends a [`TextNode`] to the inner text list.
    pub fn push(&mut self, node: TextNode)
        ensures
            final(self)@ == old(self)@.push(node@),
    {
        self.0.push(node);
        assert(self@ =~= old(self)@.push(node@));
    }

    /// The number of runs.
    pub fn len(&self) -> (n: usize)
        ensures
            n == self@.len(),
    {
        self.0.len()
    }
}

impl Default for TextNode {
    fn default() -> (node: Self)
        ensures
            node@ == (TextRun { content: Seq::empty(), style: None }),
    {
        TextNode { content: String::new(), style: None }
    }
}

impl From<String> for TextNode {
    fn from(value: String) -> (node: Self)
        ensures
            node@ == (TextRun { content: value@, style: None }),
    {
        TextNode { content: value, style: None }
    }
}

impl FromSpecImpl<String> for TextNode {
    open spec fn obeys_from_spec() -> bool {
        true
    }

    open spec fn from_spec(value: String) -> Self {
        TextNode { content: value, style: None }
    }
}

impl From<&str> for TextNode {
    fn from(value: &str) -> (node: Self)
        ensures
            node@ == (TextRun { content: value@, style: None }),
    {
        TextNode { content: value.to_owned(), style: None }
    }
}

impl FromSpecImpl<&str> for TextNode {
    open spec fn obeys_from_spec() -> bool {
        false
    }

    open spec fn from_spec(value: &str) -> Self {
        arbitrary()
    }
}

impl Default for Text {
    fn default() -> (text: Self)
        ensures
            text@ == Seq::<TextRun>::empty(),
    {
        Text::new()
    }
}

impl From<TextNode> for Text {
    fn from(value: TextNode) -> (text: Self)
        ensures
            text@ == seq![value@],
    {
        let mut text = Text::new();
        text.push(value);
        assert(text@ =~= seq![value@]);
        text
    }
}

impl FromSpecImpl<TextNode> for Text {
    open spec fn obeys_from_spec() -> bool {
        false
    }

    open spec fn from_spec(value: TextNode) -> Self {
        arbitrary()
    }
}

impl From<String> for Text {
    fn from(value: String) -> (text: Self)
        ensures
            text@ == seq![TextRun { content: value@, style: None }],
    {
        Text::from(TextNode::from(value))
    }
}

impl FromSpecImpl<String> for Text {
    open spec fn obeys_from_spec() -> bool {
        false
    }

    open spec fn from_spec(value: String) -> Self {
        arbitrary()
    }
}

impl From<&str> for Text {
    fn from(value: &str) -> (text: Self)
        ensures
            text@ == seq![TextRun { content: value@, style: None }],
    {
        Text::from(TextNode::from(value))
    }
}

impl FromSpecImpl<&str> for Text {
    open spec fn obeys_from_spec() -> bool {
        false
    }

    open spec fn from_spec(value: &str) -> Self {
        arbitrary()
    }
}

impl From<Vec<TextNode>> for Text {
    fn from(value: Vec<TextNode>) -> (text: Self)
        ensures
            text@ == text_runs(value@),
    {
        Text(value)
    }
}

impl FromSpecImpl<Vec<TextNode>> for Text {
    open spec fn obeys_from_spec() -> bool {
        true
    }

    open spec fn from_spec(value: Vec<TextNode>) -> Self {
        Text(value)
    }
}

impl From<&[TextNode]> for Text {
    fn from(value: &[TextNode]) -> (text: Self)
        ensures
            text@ == text_runs(value@),
    {
        let mut nodes: Vec<TextNode> = Vec::new();
        let mut i: usize = 0;
        while i < value.len()
            invariant
                i <= value.len(),
                nodes.len() == i,
                forall|j: int| 0 <= j < i ==> nodes[j]@ == value[j]@,
            decreases value.len() - i,
        {
            nodes.push(value[i].clone());
            i += 1;
        }
        assert(text_runs(nodes@) =~= text_runs(value@));
        Text(nodes)
    }
}

impl FromSpecImpl<&[TextNode]> for Text {
    open spec fn obeys_from_spec() -> bool {
        false
    }

    open spec fn from_spec(value: &[TextNode]) -> Self {
        arbitrary()
    }
}

/// The characters of a text, run after run, without the styles.
pub open spec fn plain_text(runs: Seq<TextRun>) -> Seq<char>
    decreases runs.len(),
{
    if runs.len() == 0 {
        Seq::empty()
    } else {
        plain_text(runs.drop_last()) + runs.last().content
    }
}

impl Text {
    /// The characters of the text, run after run, without the styles.
    pub fn content(&self) -> (content: String)
        ensures
            content@ == plain_text(self@),
    {
        let mut content = String::new();
        let mut i: usize = 0;
        while i < self.0.len()
            invariant
                i <= self.0.len(),
                content@ == plain_text(self@.take(i as int)),
            decreases self.0.len() - i,
        {
            proof {
                assert(self@.take(i + 1).drop_last() =~= self@.take(i as int));
                assert(self@.take(i + 1).last() == self.0[i as int]@);
            }
            content.append(self.0[i].content.as_str());
            i += 1;
        }
        assert(self@.take(i as int) =~= self@);
        content
    }
}

impl From<&Text> for String {
    fn from(value: &Text) -> (content: String)
        ensures
            content@ == plain_text(value@),
    {
        value.content()
    }
}

impl FromSpecImpl<&Text> for String {
    open spec fn obeys_from_spec() -> bool {
        false
    }

    open spec fn from_spec(value: &Text) -> Self {
        arbitrary()
    }
}

impl From<Text> for String {
    fn from(value: Text) -> (content: String)
        ensures
            content@ == plain_text(value@),
    {
        value.content()
    }
}

impl FromSpecImpl<Text> for String {
    open spec fn obeys_from_spec() -> bool {
        false
    }

    open spec fn from_spec(value: Text) -> Self {
        arbitrary()
    }
}

/// The Markdown AST node enumeration.
#[derive(Debug, PartialEq)]
#[allow(inconsistent_fields)]
pub enum MarkdownNode {
    /// A heading node that represents different heading levels.
    Heading { level: HeadingLevel, text: Text },
    /// A paragraph.
    Paragraph { text: Text },
    /// A block quote; `kind` is `None` for a regular block quote: `"> Block quote"`.
    BlockQuote { kind: Option<BlockQuoteKind>, nodes: Vec<Node> },
    /// A fenced code block, optionally with a language identifier.
    CodeBlock { lang: Option<String>, text: Text },
    /// A block for list items.
    List { kind: ListKind, nodes: Vec<Node> },
    /// A plain list item.
    Item { text: Text },
    /// A list item that carries a checkbox.
    TaskListItem { kind: TaskListItemKind, text: Text },
}

/// A node in the Markdown AST: a [`MarkdownNode`] with the range of the source
/// text that it covers.
#[derive(Debug, PartialEq)]
pub struct Node {
    /// The specific Markdown node represented by this node.
    pub markdown_node: MarkdownNode,
    /// The range of the source text that this node covers.
    pub source_range: Range<usize>,
}

/// Which variant a node is, with what the variant holds besides text and children.
pub enum Block {
    Heading(HeadingLevel),
    Paragraph,
    BlockQuote(Option<BlockQuoteKind>),
    CodeBlock(Option<Seq<char>>),
    List(ListKind),
    Item,
    TaskListItem(TaskListItemKind),
}

impl Block {
    /// Block quotes and lists hold child nodes; every other block holds text.
    pub open spec fn is_container(self) -> bool {
        self is BlockQuote || self is List
    }
}

/// What a [`Node`] stands for. A container has children and no text, a leaf has
/// text and no children.
pub struct Tree {
    pub block: Block,
    pub text: Seq<TextRun>,
    pub nodes: Seq<Tree>,
    pub range: Range<usize>,
}

impl MarkdownNode {
    /// The variant of this node.
    pub open spec fn block(self) -> Block {
        match self {
            MarkdownNode::Heading { level, .. } => Block::Heading(level),
            MarkdownNode::Paragraph { .. } => Block::Paragraph,
            MarkdownNode::BlockQuote { kind, .. } => Block::BlockQuote(kind),
            MarkdownNode::CodeBlock { lang, .. } => Block::CodeBlock(
                match lang {
                    Some(lang) => Some(lang@),
                    None => None,
                },
            ),
            MarkdownNode::List { kind, .. } => Block::List(kind),
            MarkdownNode::Item { .. } => Block::Item,
            MarkdownNode::TaskListItem { kind, .. } => Block::TaskListItem(kind),
        }
    }

    /// The text runs of a leaf; empty for a container.
    pub open spec fn text(self) -> Seq<TextRun> {
        match self {
            MarkdownNode::Heading { text, .. } => text@,
            MarkdownNode::Paragraph { text } => text@,
            MarkdownNode::CodeBlock { text, .. } => text@,
            MarkdownNode::Item { text } => text@,
            MarkdownNode::TaskListItem { text, .. } => text@,
            MarkdownNode::BlockQuote { .. } => Seq::empty(),
            MarkdownNode::List { .. } => Seq::empty(),
        }
    }

    /// The child nodes of a container; empty for a leaf.
    pub open spec fn children(self) -> Seq<Node> {
        match self {
            MarkdownNode::BlockQuote { nodes, .. } => nodes@,
            MarkdownNode::List { nodes, .. } => nodes@,
            _ => Seq::empty(),
        }
    }
}

/// The tree that a node stands for.
pub open spec fn tree_of(node: Node) -> Tree
    decreases node,
{
    let children = match node.markdown_node {
        MarkdownNode::BlockQuote { nodes, .. } => Seq::new(
            nodes.len() as nat,
            |i: int|
                if 0 <= i < nodes.len() {
                    tree_of(nodes[i])
                } else {
                    arbitrary()
                },
        ),
        MarkdownNode::List { nodes, .. } => Seq::new(
            nodes.len() as nat,
            |i: int|
                if 0 <= i < nodes.len() {
                    tree_of(nodes[i])
                } else {
                    arbitrary()
                },
        ),
        _ => Seq::empty(),
    };
    Tree {
        block: node.markdown_node.block(),
        text: node.markdown_node.text(),
        nodes: children,
        range: node.source_range,
    }
}

impl View for Node {
    type V = Tree;

    open spec fn view(&self) -> Tree {
        tree_of(*self)
    }
}

/// The trees that a sequence of nodes stands for, in order.
pub open spec fn trees(nodes: Seq<Node>) -> Seq<Tree> {
    Seq::new(nodes.len(), |i: int| nodes[i]@)
}

/// The children of a node's view are the views of its children.
pub proof fn lemma_view_children(node: Node)
    ensures
        node@.nodes == trees(node.markdown_node.children()),
        node@.block == node.markdown_node.block(),
        node@.text == node.markdown_node.text(),
        node@.range == node.source_range,
{
    match node.markdown_node {
        MarkdownNode::BlockQuote { nodes, .. } => {
            assert(node@.nodes =~= trees(nodes@));
        },
        MarkdownNode::List { nodes, .. } => {
            assert(node@.nodes =~= trees(nodes@));
        },
        _ => {
            assert(node@.nodes =~= trees(Seq::empty()));
        },
    }
}

/// Copies a list of nodes.
pub fn clone_nodes(nodes: &Vec<Node>) -> (copy: Vec<Node>)
    ensures
        trees(copy@) == trees(nodes@),
    decreases nodes,
{
    let mut copy: Vec<Node> = Vec::new();
    let mut i: usize = 0;
    while i < nodes.len()
        invariant
            i <= nodes.len(),
            copy.len() == i,
            forall|k: int| 0 <= k < i ==> (#[trigger] copy[k])@ == nodes[k]@,
        decreases nodes.len() - i,
    {
        copy.push(nodes[i].clone());
        i += 1;
    }
    assert(trees(copy@) =~= trees(nodes@));
    copy
}

impl Clone for MarkdownNode {
    fn clone(&self) -> (res: Self)
        ensures
            res.block() == self.block(),
            res.text() == self.text(),
            trees(res.children()) == trees(self.children()),
        decreases self,
    {
        match self {
            MarkdownNode::Heading { level, text } => MarkdownNode::Heading {
                level: *level,
                text: text.clone(),
            },
            MarkdownNode::Paragraph { text } => MarkdownNode::Paragraph { text: text.clone() },
            MarkdownNode::BlockQuote { kind, nodes } => MarkdownNode::BlockQuote {
                kind: *kind,
                nodes: clone_nodes(nodes),
            },
            MarkdownNode::CodeBlock { lang, text } => MarkdownNode::CodeBlock {
                lang: match lang {
                    Some(lang) => Some(lang.clone()),
                    None => None,
                },
                text: text.clone(),
            },
            MarkdownNode::List { kind, nodes } => MarkdownNode::List {
                kind: *kind,
                nodes: clone_nodes(nodes),
            },
            MarkdownNode::Item { text } => MarkdownNode::Item { text: text.clone() },
            MarkdownNode::TaskListItem { kind, text } => MarkdownNode::TaskListItem {
                kind: *kind,
                text: text.clone(),
            },
        }
    }
}

impl Clone for Node {
    fn clone(&self) -> (res: Self)
        ensures
            res@ == self@,
        decreases self,
    {
        let res = Node {
            markdown_node: self.markdown_node.clone(),
            source_range: self.source_range.clone(),
        };
        proof {
            lemma_view_children(*self);
            lemma_view_children(res);
        }
        res
    }
}

} // verus!
