//! The rows of the outline as lines for the terminal to draw.
use crate::explorer::view::indentation;
use crate::markdown::view::{
    line_views, plain, span_views, text_line, Color, Line, LineView, Look, Span,
};
use crate::outline::item::{
    flat_list, flatten_list, item_views, lemma_item_view, Item, ItemView,
};
use crate::text::repeat_text;
use vstd::prelude::*;

verus! {

/// The line of a heading in the open outline: its depth, a symbol and its text.
/// An entry has an arrow, down where it is expanded.
pub open spec fn heading_line(item: ItemView, depth: usize) -> LineView {
    LineView {
        spans: seq![
            indentation(depth),
            plain(
                match item {
                    ItemView::Heading { .. } => "  "@,
                    ItemView::HeadingEntry { expanded: true, .. } => "\u{25be} "@,
                    ItemView::HeadingEntry { .. } => "\u{25b8} "@,
                },
            ),
            plain(
                match item {
                    ItemView::Heading { content, .. } => content,
                    ItemView::HeadingEntry { content, .. } => content,
                },
            ),
        ],
        look: Look::spec_plain(),
    }
}

/// The lines of an item in the open outline: its own line and, where it is
/// expanded, the lines of the items below it, one level deeper.
pub open spec fn item_lines(item: ItemView, depth: usize) -> Seq<LineView>
    decreases item, 1int,
{
    seq![heading_line(item, depth)] + lines_below(item, depth).flatten()
}

/// The lines of each item below an expanded item.
pub open spec fn lines_below(item: ItemView, depth: usize) -> Seq<Seq<LineView>>
    decreases item, 0int,
{
    match item {
        ItemView::HeadingEntry { expanded: true, children, .. } => Seq::new(
            children.len(),
            |i: int|
                if 0 <= i < children.len() {
                    item_lines(children[i], crate::explorer::state::below(depth))
                } else {
                    Seq::empty()
                },
        ),
        _ => Seq::empty(),
    }
}

/// The lines of a sequence of items, one after the other.
pub open spec fn list_lines(items: Seq<ItemView>, depth: usize) -> Seq<LineView> {
    Seq::new(items.len(), |i: int| item_lines(items[i], depth)).flatten()
}

/// The lines of an item are its line followed by the lines of its children,
/// where it is expanded.
pub proof fn lemma_item_lines(item: ItemView, depth: usize)
    ensures
        item matches ItemView::HeadingEntry { expanded: true, children, .. } ==> item_lines(
            item,
            depth,
        ) == seq![heading_line(item, depth)] + list_lines(
            children,
            crate::explorer::state::below(depth),
        ),
        !(item matches ItemView::HeadingEntry { expanded: true, .. }) ==> item_lines(item, depth)
            == seq![heading_line(item, depth)],
{
    match item {
        ItemView::HeadingEntry { expanded: true, children, .. } => {
            assert(lines_below(item, depth) =~= Seq::new(
                children.len(),
                |i: int| item_lines(children[i], crate::explorer::state::below(depth)),
            ));
        },
        _ => {
            assert(lines_below(item, depth) =~= Seq::empty());
            assert(item_lines(item, depth) =~= seq![heading_line(item, depth)]);
        },
    }
}

/// The lines of the items of the open outline.
pub fn to_list_items(items: &Vec<Item>, depth: usize) -> (lines: Vec<Line>)
    ensures
        line_views(lines@) == list_lines(item_views(items@), depth),
    decreases items,
{
    let ghost views = item_views(items@);
    let ghost parts = Seq::new(views.len(), |i: int| item_lines(views[i], depth));
    let mut lines: Vec<Line> = Vec::new();
    assert(line_views(lines@) =~= parts.take(0).flatten());
    let mut i: usize = 0;
    while i < items.len()
        invariant
            i <= items.len(),
            views == item_views(items@),
            parts == Seq::new(views.len(), |i: int| item_lines(views[i], depth)),
            line_views(lines@) == parts.take(i as int).flatten(),
        decreases items.len() - i,
    {
        proof {
            lemma_item_view(items[i as int]);
            lemma_item_lines(views[i as int], depth);
            assert(views[i as int] == items[i as int]@);
            assert(parts.take(i + 1) =~= parts.take(i as int).push(parts[i as int]));
            parts.take(i as int).lemma_flatten_push(parts[i as int]);
        }
        let ghost before = line_views(lines@);
        let (symbol, content, children) = match &items[i] {
            Item::Heading { content, .. } => ("  ", content, None),
            Item::HeadingEntry { expanded, content, children, .. } => if *expanded {
                ("\u{25be} ", content, Some(children))
            } else {
                ("\u{25b8} ", content, None)
            },
        };
        let mut spans: Vec<Span> = Vec::new();
        spans.push(Span::styled(repeat_text("\u{2502} ", depth), Look::colored(Color::Black)));
        spans.push(Span::raw(symbol.to_owned()));
        spans.push(Span::raw(content.clone()));
        assert(span_views(spans@) =~= heading_line(views[i as int], depth).spans);
        lines.push(Line::of(spans, Look::plain()));
        assert(line_views(lines@) =~= before.push(heading_line(views[i as int], depth)));
        match children {
            Some(children) => {
                let next = if depth < usize::MAX {
                    depth + 1
                } else {
                    depth
                };
                let mut below = to_list_items(children, next);
                let ghost added = line_views(below@);
                let ghost middle = line_views(lines@);
                lines.append(&mut below);
                assert(line_views(lines@) =~= middle + added);
                assert(before.push(heading_line(views[i as int], depth)) + added =~= before + (
                seq![heading_line(views[i as int], depth)] + added));
            },
            None => {
                assert(before.push(heading_line(views[i as int], depth)) =~= before
                    + seq![heading_line(views[i as int], depth)]);
            },
        }
        i += 1;
    }
    assert(parts.take(i as int) =~= parts);
    lines
}

/// The line of a row in the closed outline: a symbol alone, dimmed.
pub open spec fn collapsed_line(item: ItemView) -> LineView {
    match item {
        ItemView::Heading { .. } => text_line(
            "\u{b7}"@,
            Look { dim: true, ..Look::spec_colored(Color::DarkGray) },
        ),
        ItemView::HeadingEntry { expanded: true, .. } => text_line(
            "\u{273a}"@,
            Look { dim: true, ..Look::spec_colored(Color::Red) },
        ),
        ItemView::HeadingEntry { .. } => text_line(
            "\u{25e6}"@,
            Look { dim: true, ..Look::spec_colored(Color::DarkGray) },
        ),
    }
}

/// The lines of the closed outline: one for each row.
pub fn to_collapsed_items(items: &Vec<Item>) -> (lines: Vec<Line>)
    ensures
        line_views(lines@) == Seq::new(
            flat_list(item_views(items@)).len(),
            |i: int| collapsed_line(flat_list(item_views(items@))[i]),
        ),
{
    let rows = flatten_list(items);
    let mut lines: Vec<Line> = Vec::new();
    let mut i: usize = 0;
    while i < rows.len()
        invariant
            i <= rows.len(),
            lines.len() == i,
            item_views(rows@) == flat_list(item_views(items@)),
            forall|k: int| 0 <= k < i ==> (#[trigger] lines[k])@ == collapsed_line(rows[k]@),
        decreases rows.len() - i,
    {
        proof {
            lemma_item_view(rows[i as int]);
        }
        let gray = Look {
            fg: Some(Color::DarkGray),
            bg: None,
            bold: false,
            italic: false,
            dim: true,
            crossed_out: false,
        };
        let line = match &rows[i] {
            Item::Heading { .. } => Line::text("\u{b7}".to_owned(), gray),
            Item::HeadingEntry { expanded, .. } => if *expanded {
                Line::text(
                    "\u{273a}".to_owned(),
                    Look {
                        fg: Some(Color::Red),
                        bg: None,
                        bold: false,
                        italic: false,
                        dim: true,
                        crossed_out: false,
                    },
                )
            } else {
                Line::text("\u{25e6}".to_owned(), gray)
            },
        };
        lines.push(line);
        i += 1;
    }
    assert(line_views(lines@) =~= Seq::new(
        flat_list(item_views(items@)).len(),
        |i: int| collapsed_line(flat_list(item_views(items@))[i]),
    )) by {
        assert forall|k: int| 0 <= k < rows.len() implies line_views(lines@)[k] == collapsed_line(
            flat_list(item_views(items@))[k],
        ) by {
            assert(item_views(rows@)[k] == rows[k]@);
        }
    }
    lines
}

} // verus!
