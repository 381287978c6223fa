//! The lines that show the nodes of a note: what stands in each line and how it
//! is styled, as plain values for the terminal to draw.
use crate::markdown::node::{
    lemma_view_children, plain_text, trees, Block, HeadingLevel, ItemKind, ListKind, MarkdownNode,
    Node, TaskListItemKind, Text, TextRun, Tree,
};
use crate::stylized_text::{styled_text, stylize, FontStyle};
use crate::text::{
    decimal, decimal_text, repeat, repeated, split, split_on, texts, uppercase, uppercased,
};
use vstd::prelude::*;
use vstd::string::{StrSliceExecFns, StringExecFns};

verus! {

/// The colors that the lines of a note use.
#[derive(Clone, Copy, Debug, PartialEq, Eq, Structural)]
pub enum Color {
    Black,
    DarkGray,
    Red,
    Magenta,
    Yellow,
    Cyan,
}

/// How a piece of a line, or a whole line, is drawn.
#[derive(Clone, Copy, Debug, PartialEq, Eq, Structural)]
pub struct Look {
    pub fg: Option<Color>,
    pub bg: Option<Color>,
    pub bold: bool,
    pub italic: bool,
    pub dim: bool,
    pub crossed_out: bool,
}

impl Look {
    /// The look of text without any styling.
    pub open spec fn spec_plain() -> Look {
        Look { fg: None, bg: None, bold: false, italic: false, dim: false, crossed_out: false }
    }

    /// The look of text without any styling.
    #[verifier::when_used_as_spec(spec_plain)]
    pub fn plain() -> (look: Look)
        ensures
            look == Look::spec_plain(),
    {
        Look { fg: None, bg: None, bold: false, italic: false, dim: false, crossed_out: false }
    }

    /// The look of text in a color.
    pub open spec fn spec_colored(color: Color) -> Look {
        Look { fg: Some(color), ..Look::spec_plain() }
    }

    /// The look of text in a color.
    #[verifier::when_used_as_spec(spec_colored)]
    pub fn colored(color: Color) -> (look: Look)
        ensures
            look == Look::spec_colored(color),
    {
        Look { fg: Some(color), bg: None, bold: false, italic: false, dim: false, crossed_out: false }
    }
}

/// A piece of a line with one look.
#[derive(Debug, PartialEq)]
pub struct Span {
    pub content: String,
    pub look: Look,
}

/// What a [`Span`] stands for.
pub struct SpanView {
    pub content: Seq<char>,
    pub look: Look,
}

impl View for Span {
    type V = SpanView;

    open spec fn view(&self) -> SpanView {
        SpanView { content: self.content@, look: self.look }
    }
}

impl Clone for Span {
    fn clone(&self) -> (res: Self)
        ensures
            res@ == self@,
    {
        Span { content: self.content.clone(), look: self.look }
    }
}

impl Span {
    /// A span without styling.
    pub fn raw(content: String) -> (span: Span)
        ensures
            span@ == plain(content@),
    {
        Span { content, look: Look::plain() }
    }

    /// A span with a look.
    pub fn styled(content: String, look: Look) -> (span: Span)
        ensures
            span@ == (SpanView { content: content@, look }),
    {
        Span { content, look }
    }
}

/// A span without styling.
pub open spec fn plain(content: Seq<char>) -> SpanView {
    SpanView { content, look: Look::spec_plain() }
}

/// What a sequence of spans stands for.
pub open spec fn span_views(spans: Seq<Span>) -> Seq<SpanView> {
    Seq::new(spans.len(), |i: int| spans[i]@)
}

/// A line: its spans, and the look of the line as a whole.
#[derive(Debug, PartialEq)]
pub struct Line {
    pub spans: Vec<Span>,
    pub look: Look,
}

/// What a [`Line`] stands for.
pub struct LineView {
    pub spans: Seq<SpanView>,
    pub look: Look,
}

impl View for Line {
    type V = LineView;

    open spec fn view(&self) -> LineView {
        LineView { spans: span_views(self.spans@), look: self.look }
    }
}

/// What a sequence of lines stands for.
pub open spec fn line_views(lines: Seq<Line>) -> Seq<LineView> {
    Seq::new(lines.len(), |i: int| lines[i]@)
}

/// The empty line.
pub open spec fn blank_line() -> LineView {
    LineView { spans: Seq::empty(), look: Look::spec_plain() }
}

/// A line of one unstyled span, with a look for the line.
pub open spec fn text_line(content: Seq<char>, look: Look) -> LineView {
    LineView { spans: seq![plain(content)], look }
}

impl Line {
    /// The empty line.
    pub fn blank() -> (line: Line)
        ensures
            line@ == blank_line(),
    {
        let line = Line { spans: Vec::new(), look: Look::plain() };
        assert(line@.spans =~= Seq::<SpanView>::empty());
        line
    }

    /// A line of one unstyled span, with a look for the line.
    pub fn text(content: String, look: Look) -> (line: Line)
        ensures
            line@ == text_line(content@, look),
    {
        let mut spans: Vec<Span> = Vec::new();
        spans.push(Span::raw(content));
        let line = Line { spans, look };
        assert(line@.spans =~= seq![plain(content@)]);
        line
    }

    /// A line of the given spans, with a look for the line.
    pub fn of(spans: Vec<Span>, look: Look) -> (line: Line)
        ensures
            line@ == (LineView { spans: span_views(spans@), look }),
    {
        Line { spans, look }
    }
}

/// Appends lines to lines.
fn extend(lines: &mut Vec<Line>, more: Vec<Line>)
    ensures
        line_views(final(lines)@) == line_views(old(lines)@) + line_views(more@),
{
    let mut more = more;
    let ghost added = line_views(more@);
    lines.append(&mut more);
    assert(line_views(lines@) =~= line_views(old(lines)@) + added);
}

/// Appends one line to lines.
fn push_line(lines: &mut Vec<Line>, line: Line)
    ensures
        line_views(final(lines)@) == line_views(old(lines)@).push(line@),
{
    lines.push(line);
    assert(line_views(lines@) =~= line_views(old(lines)@).push(line@));
}

/// The spans `first` and `second` followed by the spans `content`.
fn spans_after(first: Span, second: Span, content: Vec<Span>) -> (spans: Vec<Span>)
    ensures
        span_views(spans@) == seq![first@, second@] + span_views(content@),
{
    let mut spans: Vec<Span> = Vec::new();
    spans.push(first);
    spans.push(second);
    let mut content = content;
    let ghost rest = span_views(content@);
    spans.append(&mut content);
    assert(span_views(spans@) =~= seq![first@, second@] + rest);
    spans
}

/// The line of a task list item: the prefix, the box and the text; a checked
/// item is gray and crossed out.
pub open spec fn task_line(kind: TaskListItemKind, content: Seq<SpanView>, prefix: SpanView) -> LineView {
    match kind {
        TaskListItemKind::Unchecked => LineView {
            spans: seq![
                prefix,
                SpanView { content: "\u{25a1} "@, look: Look::spec_colored(Color::DarkGray) },
            ] + content,
            look: Look::spec_plain(),
        },
        TaskListItemKind::Checked => LineView {
            spans: seq![
                prefix,
                SpanView { content: "\u{25a0} "@, look: Look::spec_colored(Color::Magenta) },
            ] + content,
            look: Look { crossed_out: true, ..Look::spec_colored(Color::DarkGray) },
        },
    }
}

/// The line of a task list item.
pub fn task(kind: TaskListItemKind, content: Vec<Span>, prefix: Span) -> (line: Line)
    ensures
        line@ == task_line(kind, span_views(content@), prefix@),
{
    match kind {
        TaskListItemKind::Unchecked => Line::of(
            spans_after(
                prefix,
                Span::styled("\u{25a1} ".to_owned(), Look::colored(Color::DarkGray)),
                content,
            ),
            Look::plain(),
        ),
        TaskListItemKind::Checked => Line::of(
            spans_after(
                prefix,
                Span::styled("\u{25a0} ".to_owned(), Look::colored(Color::Magenta)),
                content,
            ),
            Look {
                fg: Some(Color::DarkGray),
                bg: None,
                bold: false,
                italic: false,
                dim: false,
                crossed_out: true,
            },
        ),
    }
}

/// The line of a plain list item: the prefix, the marker and the text.
pub open spec fn item_line(kind: ItemKind, content: Seq<SpanView>, prefix: SpanView) -> LineView {
    match kind {
        ItemKind::Ordered(number) => LineView {
            spans: seq![
                prefix,
                SpanView {
                    content: decimal(number as nat),
                    look: Look::spec_colored(Color::DarkGray),
                },
                plain(". "@),
            ] + content,
            look: Look::spec_plain(),
        },
        ItemKind::Unordered => LineView {
            spans: seq![
                prefix,
                SpanView { content: "- "@, look: Look::spec_colored(Color::DarkGray) },
            ] + content,
            look: Look::spec_plain(),
        },
    }
}

/// The line of a plain list item.
pub fn item(kind: ItemKind, content: Vec<Span>, prefix: Span) -> (line: Line)
    ensures
        line@ == item_line(kind, span_views(content@), prefix@),
{
    match kind {
        ItemKind::Ordered(number) => {
            let mut spans: Vec<Span> = Vec::new();
            spans.push(prefix);
            spans.push(Span::styled(decimal_text(number), Look::colored(Color::DarkGray)));
            spans.push(Span::raw(". ".to_owned()));
            let mut content = content;
            let ghost rest = span_views(content@);
            spans.append(&mut content);
            assert(span_views(spans@) =~= seq![
                prefix@,
                SpanView {
                    content: decimal(number as nat),
                    look: Look::spec_colored(Color::DarkGray),
                },
                plain(". "@),
            ] + rest);
            Line::of(spans, Look::plain())
        },
        ItemKind::Unordered => Line::of(
            spans_after(
                prefix,
                Span::styled("- ".to_owned(), Look::colored(Color::DarkGray)),
                content,
            ),
            Look::plain(),
        ),
    }
}

/// The spans of a text: one unstyled span for each run.
pub open spec fn spans_of(text: Seq<TextRun>) -> Seq<SpanView> {
    Seq::new(text.len(), |i: int| plain(text[i].content))
}

/// The spans of a text.
pub fn text_to_spans(text: &Text) -> (spans: Vec<Span>)
    ensures
        span_views(spans@) == spans_of(text@),
{
    let mut spans: Vec<Span> = Vec::new();
    let mut i: usize = 0;
    while i < text.0.len()
        invariant
            i <= text.0.len(),
            spans.len() == i,
            forall|k: int| 0 <= k < i ==> (#[trigger] spans[k])@ == plain(text.0[k].content@),
        decreases text.0.len() - i,
    {
        spans.push(Span::raw(text.0[i].content.clone()));
        i += 1;
    }
    assert(span_views(spans@) =~= spans_of(text@));
    spans
}

/// The number of spaces that fill a line of code up to the width of the block.
pub open spec fn padding(length: nat, width: usize) -> nat {
    if width >= 2 + length {
        (width - 2 - length) as nat
    } else {
        0
    }
}

/// A line of a code block: the code between two spaces, filled up with spaces
/// to the width of the block, on black.
pub open spec fn code_line(line: Seq<char>, width: usize) -> LineView {
    text_line(
        " "@ + line + " "@ + repeated(' ', padding(line.len(), width)),
        Look { bg: Some(Color::Black), ..Look::spec_plain() },
    )
}

/// The lines of a piece of code.
pub open spec fn run_lines(content: Seq<char>, width: usize) -> Seq<LineView> {
    Seq::new(
        split_on(content, '\n').len(),
        |i: int| code_line(split_on(content, '\n')[i], width),
    )
}

/// The lines of a code block: the lines of each run of its text.
pub open spec fn code_lines(text: Seq<TextRun>, width: usize) -> Seq<LineView>
    decreases text.len(),
{
    if text.len() == 0 {
        Seq::empty()
    } else {
        code_lines(text.drop_last(), width) + run_lines(text.last().content, width)
    }
}

/// The lines of a code block.
pub fn code_block(text: &Text, width: usize) -> (lines: Vec<Line>)
    ensures
        line_views(lines@) == code_lines(text@, width),
{
    let mut lines: Vec<Line> = Vec::new();
    assert(line_views(lines@) =~= code_lines(text@.take(0), width));
    let mut i: usize = 0;
    while i < text.0.len()
        invariant
            i <= text.0.len(),
            line_views(lines@) == code_lines(text@.take(i as int), width),
        decreases text.0.len() - i,
    {
        let pieces = split(text.0[i].content.as_str(), '\n');
        let ghost before = line_views(lines@);
        let ghost content = text.0[i as int].content@;
        let mut k: usize = 0;
        while k < pieces.len()
            invariant
                k <= pieces.len(),
                texts(pieces@) == split_on(content, '\n'),
                line_views(lines@) == before + run_lines(content, width).take(k as int),
            decreases pieces.len() - k,
        {
            let piece = pieces[k].as_str();
            assert(piece@ == split_on(content, '\n')[k as int]) by {
                assert(texts(pieces@)[k as int] == pieces[k as int]@);
            }
            let length = piece.unicode_len();
            let fill = if width >= 2 && width - 2 >= length {
                width - 2 - length
            } else {
                0
            };
            let line = " ".to_owned().concat(piece).concat(" ").concat(repeat(' ', fill).as_str());
            push_line(
                &mut lines,
                Line::text(
                    line,
                    Look {
                        fg: None,
                        bg: Some(Color::Black),
                        bold: false,
                        italic: false,
                        dim: false,
                        crossed_out: false,
                    },
                ),
            );
            proof {
                let all = run_lines(content, width);
                assert(all.take(k + 1) =~= all.take(k as int).push(all[k as int]));
                assert(before + all.take(k as int).push(all[k as int]) =~= (before + all.take(
                    k as int,
                )).push(all[k as int]));
            }
            k += 1;
        }
        proof {
            let all = run_lines(content, width);
            assert(all.take(k as int) =~= all);
            assert(text@.take(i + 1).drop_last() =~= text@.take(i as int));
            assert(text@.take(i + 1).last().content == content);
        }
        i += 1;
    }
    assert(text@.take(i as int) =~= text@);
    lines
}

/// The width that a text takes on the screen, in columns.
pub uninterp spec fn display_width(text: Seq<char>) -> usize;

/// `Span::width` of ratatui: the width of the text in columns of the terminal,
/// which is a function of the text alone; the contract gives it its name.
#[verifier::external_body]
fn width_of(text: &str) -> (width: usize)
    ensures
        width == display_width(text@),
{
    ratatui::text::Span::raw(text).width()
}

/// The lines into which a text is wrapped for a given width, words kept whole.
pub uninterp spec fn wrapped(text: Seq<char>, width: usize) -> Seq<Seq<char>>;

/// `textwrap::wrap` with the options of `textwrap::Options::new(width)` and
/// `break_words(false)`: the lines into which the text is wrapped, which are a
/// function of the text and the width alone; the contract gives them their
/// name.
#[verifier::external_body]
fn wrap(text: &str, width: usize) -> (lines: Vec<String>)
    ensures
        texts(lines@) == wrapped(text@, width),
{
    textwrap::wrap(text, textwrap::Options::new(width).break_words(false))
        .into_iter()
        .map(|line| line.to_string())
        .collect()
}

/// The lines that come of the wrapped pieces of a text: each piece behind the
/// prefix.
pub open spec fn prefixed(pieces: Seq<Seq<char>>, prefix: SpanView) -> Seq<LineView> {
    Seq::new(
        pieces.len(),
        |i: int| LineView { spans: seq![prefix, plain(pieces[i])], look: Look::spec_plain() },
    )
}

/// The width that is left for a text behind a prefix.
pub open spec fn width_behind(width: usize, prefix: SpanView) -> usize {
    if width >= display_width(prefix.content) {
        (width - display_width(prefix.content)) as usize
    } else {
        0
    }
}

/// Lays wrapped pieces of text behind a prefix.
pub fn lines_with_prefix(pieces: Vec<String>, prefix: &Span) -> (lines: Vec<Line>)
    ensures
        line_views(lines@) == prefixed(texts(pieces@), prefix@),
{
    let ghost all = pieces@;
    let mut lines: Vec<Line> = Vec::new();
    for piece in iter: pieces
        invariant
            iter.seq() == all,
            lines.len() == iter.index(),
            forall|k: int|
                0 <= k < iter.index() ==> (#[trigger] lines[k])@ == (LineView {
                    spans: seq![prefix@, plain(all[k]@)],
                    look: Look::spec_plain(),
                }),
    {
        let mut spans: Vec<Span> = Vec::new();
        spans.push(prefix.clone());
        spans.push(Span::raw(piece));
        assert(span_views(spans@) =~= seq![prefix@, plain(piece@)]);
        lines.push(Line::of(spans, Look::plain()));
    }
    assert(line_views(lines@) =~= prefixed(texts(all), prefix@));
    lines
}

/// Wraps a text to the width that is left behind the prefix and puts the prefix
/// before each line.
pub fn wrap_with_prefix(text: String, width: usize, prefix: &Span) -> (lines: Vec<Line>)
    ensures
        line_views(lines@) == prefixed(wrapped(text@, width_behind(width, prefix@)), prefix@),
{
    let left = width.saturating_sub(width_of(prefix.content.as_str()));
    lines_with_prefix(wrap(text.as_str(), left), prefix)
}

/// The lines of a heading.
pub open spec fn heading_lines(level: HeadingLevel, text: Seq<char>, width: usize) -> Seq<LineView> {
    match level {
        HeadingLevel::H1 => seq![
            blank_line(),
            text_line(uppercased(text), Look { bold: true, italic: true, ..Look::spec_plain() }),
            text_line(repeated('\u{2580}', width as nat), Look::spec_plain()),
            blank_line(),
        ],
        HeadingLevel::H2 => seq![
            text_line(text, Look { bold: true, ..Look::spec_colored(Color::Yellow) }),
            text_line(repeated('\u{2550}', width as nat), Look::spec_colored(Color::Yellow)),
        ],
        HeadingLevel::H3 => seq![
            LineView {
                spans: seq![
                    plain("\u{2b24}  "@),
                    SpanView { content: text, look: Look { bold: true, ..Look::spec_plain() } },
                ],
                look: Look::spec_colored(Color::Cyan),
            },
            blank_line(),
        ],
        HeadingLevel::H4 => seq![
            LineView {
                spans: seq![
                    plain("\u{25cf} "@),
                    SpanView { content: text, look: Look { bold: true, ..Look::spec_plain() } },
                ],
                look: Look::spec_colored(Color::Magenta),
            },
            blank_line(),
        ],
        HeadingLevel::H5 => seq![
            LineView {
                spans: seq![plain("\u{25c6} "@), plain(styled_text(text, FontStyle::Script))],
                look: Look::spec_plain(),
            },
            blank_line(),
        ],
        HeadingLevel::H6 => seq![
            LineView {
                spans: seq![plain("\u{273a} "@), plain(styled_text(text, FontStyle::Script))],
                look: Look::spec_plain(),
            },
            blank_line(),
        ],
    }
}

/// A line of two spans.
fn pair_line(first: Span, second: Span, look: Look) -> (line: Line)
    ensures
        line@ == (LineView { spans: seq![first@, second@], look }),
{
    let mut spans: Vec<Span> = Vec::new();
    spans.push(first);
    spans.push(second);
    assert(span_views(spans@) =~= seq![first@, second@]);
    Line::of(spans, look)
}

/// The lines of a heading.
pub fn heading(level: HeadingLevel, text: String, width: usize) -> (lines: Vec<Line>)
    ensures
        line_views(lines@) == heading_lines(level, text@, width),
{
    let unstyled = Look::plain();
    let bold = Look { fg: None, bg: None, bold: true, italic: false, dim: false, crossed_out: false };
    let mut lines: Vec<Line> = Vec::new();
    let ghost content = text@;
    assert(line_views(lines@) =~= Seq::<LineView>::empty());
    match level {
        HeadingLevel::H1 => {
            push_line(&mut lines, Line::blank());
            push_line(
                &mut lines,
                Line::text(
                    uppercase(text.as_str()),
                    Look { fg: None, bg: None, bold: true, italic: true, dim: false, crossed_out: false },
                ),
            );
            push_line(&mut lines, Line::text(repeat('\u{2580}', width), unstyled));
            push_line(&mut lines, Line::blank());
            assert(line_views(lines@) =~= heading_lines(level, content, width));
        },
        HeadingLevel::H2 => {
            push_line(
                &mut lines,
                Line::text(
                    text,
                    Look {
                        fg: Some(Color::Yellow),
                        bg: None,
                        bold: true,
                        italic: false,
                        dim: false,
                        crossed_out: false,
                    },
                ),
            );
            push_line(&mut lines, Line::text(repeat('\u{2550}', width), Look::colored(Color::Yellow)));
            assert(line_views(lines@) =~= heading_lines(level, content, width));
        },
        HeadingLevel::H3 => {
            let line = pair_line(
                Span::raw("\u{2b24}  ".to_owned()),
                Span::styled(text, bold),
                Look::colored(Color::Cyan),
            );
            assert(line@.spans =~= heading_lines(level, content, width)[0].spans);
            push_line(&mut lines, line);
            push_line(&mut lines, Line::blank());
            assert(line_views(lines@) =~= heading_lines(level, content, width));
        },
        HeadingLevel::H4 => {
            let line = pair_line(
                Span::raw("\u{25cf} ".to_owned()),
                Span::styled(text, bold),
                Look::colored(Color::Magenta),
            );
            assert(line@.spans =~= heading_lines(level, content, width)[0].spans);
            push_line(&mut lines, line);
            push_line(&mut lines, Line::blank());
            assert(line_views(lines@) =~= heading_lines(level, content, width));
        },
        HeadingLevel::H5 => {
            push_line(
                &mut lines,
                pair_line(
                    Span::raw("\u{25c6} ".to_owned()),
                    Span::raw(stylize(text.as_str(), FontStyle::Script)),
                    unstyled,
                ),
            );
            push_line(&mut lines, Line::blank());
            assert(line_views(lines@) =~= heading_lines(level, content, width));
        },
        HeadingLevel::H6 => {
            push_line(
                &mut lines,
                pair_line(
                    Span::raw("\u{273a} ".to_owned()),
                    Span::raw(stylize(text.as_str(), FontStyle::Script)),
                    unstyled,
                ),
            );
            push_line(&mut lines, Line::blank());
            assert(line_views(lines@) =~= heading_lines(level, content, width));
        },
    }
    lines
}

/// The marker of the plain item at a place in a list: an ordered list counts
/// from its start number, one up with each item, and stops at the largest
/// number there is; an unordered list has the same marker for every item.
pub open spec fn marker_of(kind: ListKind, place: int) -> ItemKind {
    match kind {
        ListKind::Ordered(start) => ItemKind::Ordered(
            if start + place <= u64::MAX {
                (start + place) as u64
            } else {
                u64::MAX
            },
        ),
        ListKind::Unordered => ItemKind::Unordered,
    }
}

/// The marker of the plain item at a place in a list.
pub fn item_kind(kind: ListKind, place: usize) -> (marker: ItemKind)
    ensures
        marker == marker_of(kind, place as int),
{
    match kind {
        ListKind::Ordered(start) => ItemKind::Ordered(start.saturating_add(place as u64)),
        ListKind::Unordered => ItemKind::Unordered,
    }
}

/// The empty line that closes a block at the top level: a block behind a
/// prefix has none.
pub open spec fn closing(prefix: SpanView) -> Seq<LineView> {
    if prefix.content.len() == 0 {
        seq![blank_line()]
    } else {
        Seq::empty()
    }
}

/// The lines of a node in an area of the given width, behind a prefix.
///
/// A paragraph is wrapped; a heading has the lines of its level; an item is
/// one line; a code block stands between a line of spaces and an empty line; a
/// list has the lines of its items, numbered from its start where it is
/// ordered, and of what else stands in it, indented; a block quote has the
/// lines of its nodes behind a bar, a line with the bar alone between two
/// nodes.
pub open spec fn rendered(tree: Tree, width: usize, prefix: SpanView) -> Seq<LineView>
    decreases tree, 1int,
{
    match tree.block {
        Block::Paragraph => prefixed(
            wrapped(plain_text(tree.text), width_behind(width, prefix)),
            prefix,
        ) + closing(prefix),
        Block::Heading(level) => heading_lines(level, plain_text(tree.text), width),
        Block::Item => seq![item_line(ItemKind::Unordered, spans_of(tree.text), prefix)],
        Block::TaskListItem(kind) => seq![task_line(kind, spans_of(tree.text), prefix)],
        Block::CodeBlock(_) => seq![
            text_line(
                repeated(' ', width as nat),
                Look { bg: Some(Color::Black), ..Look::spec_plain() },
            ),
        ] + code_lines(tree.text, width) + seq![blank_line()],
        Block::List(_) => rendered_below(tree, width, prefix).flatten() + closing(prefix),
        Block::BlockQuote(_) => rendered_below(tree, width, prefix).flatten() + closing(prefix),
    }
}

/// The lines of each node of a list or a block quote.
pub open spec fn rendered_below(tree: Tree, width: usize, prefix: SpanView) -> Seq<Seq<LineView>>
    decreases tree, 0int,
{
    Seq::new(
        tree.nodes.len(),
        |i: int|
            if 0 <= i < tree.nodes.len() {
                match tree.block {
                    Block::List(kind) => match tree.nodes[i].block {
                        Block::TaskListItem(task) => seq![
                            task_line(task, spans_of(tree.nodes[i].text), prefix),
                        ],
                        Block::Item => seq![
                            item_line(marker_of(kind, i), spans_of(tree.nodes[i].text), prefix),
                        ],
                        _ => rendered(tree.nodes[i], width, plain("  "@ + prefix.content)),
                    },
                    _ => (if i != 0 {
                        seq![
                            text_line(
                                prefix.content + "\u{2503} "@,
                                Look::spec_colored(Color::Magenta),
                            ),
                        ]
                    } else {
                        Seq::empty()
                    }) + rendered(
                        tree.nodes[i],
                        width,
                        SpanView {
                            content: prefix.content + "\u{2503} "@,
                            look: Look::spec_colored(Color::Magenta),
                        },
                    ),
                }
            } else {
                Seq::empty()
            },
    )
}

/// The lines of the first `count` nodes of a list or a block quote.
pub open spec fn rendered_upto(tree: Tree, width: usize, prefix: SpanView, count: int) -> Seq<
    LineView,
> {
    rendered_below(tree, width, prefix).take(count).flatten()
}

proof fn lemma_rendered_next(tree: Tree, width: usize, prefix: SpanView, count: int)
    requires
        0 <= count < tree.nodes.len(),
    ensures
        rendered_upto(tree, width, prefix, count + 1) == rendered_upto(
            tree,
            width,
            prefix,
            count,
        ) + rendered_below(tree, width, prefix)[count],
{
    let all = rendered_below(tree, width, prefix);
    assert(all.take(count + 1) =~= all.take(count).push(all[count]));
    all.take(count).lemma_flatten_push(all[count]);
}

/// The lines of a node in an area of the given width, behind a prefix.
pub fn render_markdown(node: &Node, width: usize, prefix: Span) -> (lines: Vec<Line>)
    ensures
        line_views(lines@) == rendered(node@, width, prefix@),
    decreases node,
{
    proof {
        lemma_view_children(*node);
    }
    let ghost tree = node@;
    let ghost before = prefix@;
    let top = prefix.content.as_str().unicode_len() == 0;
    match &node.markdown_node {
        MarkdownNode::Paragraph { text } => {
            let mut lines = wrap_with_prefix(text.content(), width, &prefix);
            if top {
                push_line(&mut lines, Line::blank());
            }
            assert(line_views(lines@) =~= rendered(tree, width, before));
            lines
        },
        MarkdownNode::Heading { level, text } => heading(*level, text.content(), width),
        MarkdownNode::Item { text } => {
            let mut lines: Vec<Line> = Vec::new();
            push_line(&mut lines, item(ItemKind::Unordered, text_to_spans(text), prefix));
            assert(line_views(lines@) =~= rendered(tree, width, before));
            lines
        },
        MarkdownNode::TaskListItem { kind, text } => {
            let mut lines: Vec<Line> = Vec::new();
            push_line(&mut lines, task(*kind, text_to_spans(text), prefix));
            assert(line_views(lines@) =~= rendered(tree, width, before));
            lines
        },
        MarkdownNode::CodeBlock { text, .. } => {
            let mut lines: Vec<Line> = Vec::new();
            push_line(
                &mut lines,
                Line::text(
                    repeat(' ', width),
                    Look {
                        fg: None,
                        bg: Some(Color::Black),
                        bold: false,
                        italic: false,
                        dim: false,
                        crossed_out: false,
                    },
                ),
            );
            extend(&mut lines, code_block(text, width));
            push_line(&mut lines, Line::blank());
            assert(line_views(lines@) =~= rendered(tree, width, before));
            lines
        },
        MarkdownNode::List { nodes, kind } => {
            let mut lines: Vec<Line> = Vec::new();
            assert(line_views(lines@) =~= rendered_upto(tree, width, before, 0));
            let mut i: usize = 0;
            while i < nodes.len()
                invariant
                    i <= nodes.len(),
                    tree == node@,
                    before == prefix@,
                    node.markdown_node matches MarkdownNode::List { nodes: held, kind: of }
                        && held == *nodes && of == *kind,
                    tree.nodes == trees(nodes@),
                    tree.block == Block::List(*kind),
                    line_views(lines@) == rendered_upto(tree, width, before, i as int),
                decreases nodes.len() - i,
            {
                proof {
                    lemma_view_children(nodes[i as int]);
                    lemma_rendered_next(tree, width, before, i as int);
                    assert(tree.nodes[i as int] == nodes[i as int]@);
                }
                match &nodes[i].markdown_node {
                    MarkdownNode::TaskListItem { kind: task_kind, text } => {
                        push_line(
                            &mut lines,
                            task(*task_kind, text_to_spans(text), prefix.clone()),
                        );
                        assert(line_views(lines@) =~= rendered_upto(tree, width, before, i + 1));
                    },
                    MarkdownNode::Item { text } => {
                        push_line(
                            &mut lines,
                            item(item_kind(*kind, i), text_to_spans(text), prefix.clone()),
                        );
                        assert(line_views(lines@) =~= rendered_upto(tree, width, before, i + 1));
                    },
                    _ => {
                        let deeper = Span::raw("  ".to_owned().concat(prefix.content.as_str()));
                        extend(&mut lines, render_markdown(&nodes[i], width, deeper));
                    },
                }
                i += 1;
            }
            assert(rendered_below(tree, width, before).take(i as int) =~= rendered_below(
                tree,
                width,
                before,
            ));
            if top {
                push_line(&mut lines, Line::blank());
            }
            assert(line_views(lines@) =~= rendered(tree, width, before));
            lines
        },
        MarkdownNode::BlockQuote { nodes, .. } => {
            let mut lines: Vec<Line> = Vec::new();
            assert(line_views(lines@) =~= rendered_upto(tree, width, before, 0));
            let mut i: usize = 0;
            while i < nodes.len()
                invariant
                    i <= nodes.len(),
                    tree == node@,
                    before == prefix@,
                    node.markdown_node matches MarkdownNode::BlockQuote { nodes: held, .. }
                        && held == *nodes,
                    tree.nodes == trees(nodes@),
                    tree.block is BlockQuote,
                    line_views(lines@) == rendered_upto(tree, width, before, i as int),
                decreases nodes.len() - i,
            {
                proof {
                    lemma_rendered_next(tree, width, before, i as int);
                    assert(tree.nodes[i as int] == nodes[i as int]@);
                }
                let bar = prefix.content.clone().concat("\u{2503} ");
                let ghost start = line_views(lines@);
                if i != 0 {
                    push_line(&mut lines, Line::text(bar.clone(), Look::colored(Color::Magenta)));
                }
                let ghost middle = line_views(lines@);
                let quoted = Span::styled(bar, Look::colored(Color::Magenta));
                let below = render_markdown(&nodes[i], width, quoted);
                let ghost added = line_views(below@);
                extend(&mut lines, below);
                proof {
                    if i != 0 {
                        assert(start.push(middle.last()) + added =~= start + (seq![middle.last()]
                            + added));
                    } else {
                        assert(start + added =~= start + (Seq::<LineView>::empty() + added));
                    }
                }
                i += 1;
            }
            assert(rendered_below(tree, width, before).take(i as int) =~= rendered_below(
                tree,
                width,
                before,
            ));
            if top {
                push_line(&mut lines, Line::blank());
            }
            assert(line_views(lines@) =~= rendered(tree, width, before));
            lines
        },
    }
}

/// The lines of the nodes of a note, one node after the other.
pub fn render_nodes(nodes: &Vec<Node>, width: usize) -> (lines: Vec<Line>)
    ensures
        line_views(lines@) == Seq::new(
            nodes.len() as nat,
            |i: int| rendered(nodes[i]@, width, plain(Seq::empty())),
        ).flatten(),
{
    let ghost all = Seq::new(
        nodes.len() as nat,
        |i: int| rendered(nodes[i]@, width, plain(Seq::empty())),
    );
    let mut lines: Vec<Line> = Vec::new();
    assert(line_views(lines@) =~= all.take(0).flatten());
    let mut i: usize = 0;
    while i < nodes.len()
        invariant
            i <= nodes.len(),
            all == Seq::new(
                nodes.len() as nat,
                |i: int| rendered(nodes[i]@, width, plain(Seq::empty())),
            ),
            line_views(lines@) == all.take(i as int).flatten(),
        decreases nodes.len() - i,
    {
        proof {
            assert(all.take(i + 1) =~= all.take(i as int).push(all[i as int]));
            all.take(i as int).lemma_flatten_push(all[i as int]);
        }
        extend(&mut lines, render_markdown(&nodes[i], width, Span::raw(String::new())));
        i += 1;
    }
    assert(all.take(i as int) =~= all);
    lines
}

} // verus!
