//! The rows of the explorer as lines for the terminal to draw.
use crate::explorer::item::{lemma_item_view, Item, ItemView};
use crate::markdown::view::{plain, span_views, Color, Line, LineView, Look, Span, SpanView};
use crate::text::{repeat_text, repeated_text, same_text};
use vstd::prelude::*;

verus! {

/// The bars that show how deep a row stands, in black.
pub open spec fn indentation(depth: usize) -> SpanView {
    SpanView {
        content: repeated_text("\u{2502} "@, depth as nat),
        look: Look::spec_colored(Color::Black),
    }
}

/// A span in dark gray.
pub open spec fn gray(content: Seq<char>) -> SpanView {
    SpanView { content, look: Look::spec_colored(Color::DarkGray) }
}

/// The line of a row of the explorer. In the open pane a row shows its depth,
/// a symbol and its name: a directory an arrow, down where it is expanded, and
/// the selected note a diamond. In the closed pane a row is its symbol alone.
pub open spec fn row_line(
    item: ItemView,
    depth: usize,
    selected_path: Option<Seq<char>>,
    is_open: bool,
) -> LineView {
    LineView {
        spans: match item {
            ItemView::File(note) => {
                let is_selected = selected_path == Some(note.path);
                if is_open {
                    seq![
                        indentation(depth),
                        plain(if is_selected {
                            "\u{25c6} "@
                        } else {
                            "  "@
                        }),
                        plain(note.name),
                    ]
                } else if is_selected {
                    seq![plain("\u{25c6}"@)]
                } else {
                    seq![gray("\u{25e6}"@)]
                }
            },
            ItemView::Directory { expanded, name, .. } => {
                if is_open {
                    seq![
                        indentation(depth),
                        gray(if expanded {
                            "\u{25be} "@
                        } else {
                            "\u{25b8} "@
                        }),
                        plain(name),
                    ]
                } else {
                    seq![gray(if expanded {
                        "\u{25aa}"@
                    } else {
                        "\u{25ab}"@
                    })]
                }
            },
        },
        look: Look::spec_plain(),
    }
}

/// A line of one span.
fn single(span: Span) -> (line: Line)
    ensures
        line@ == (LineView { spans: seq![span@], look: Look::spec_plain() }),
{
    let mut spans: Vec<Span> = Vec::new();
    spans.push(span);
    assert(span_views(spans@) =~= seq![span@]);
    Line::of(spans, Look::plain())
}

/// A line of three spans.
fn triple(first: Span, second: Span, third: Span) -> (line: Line)
    ensures
        line@ == (LineView { spans: seq![first@, second@, third@], look: Look::spec_plain() }),
{
    let mut spans: Vec<Span> = Vec::new();
    spans.push(first);
    spans.push(second);
    spans.push(third);
    assert(span_views(spans@) =~= seq![first@, second@, third@]);
    Line::of(spans, Look::plain())
}

/// The line of a row of the explorer.
pub fn list_item(item: &Item, depth: usize, selected_path: Option<&str>, is_open: bool) -> (line:
    Line)
    ensures
        line@ == row_line(
            item@,
            depth,
            match selected_path {
                Some(path) => Some(path@),
                None => None,
            },
            is_open,
        ),
{
    proof {
        lemma_item_view(*item);
    }
    let gray = Look::colored(Color::DarkGray);
    match item {
        Item::File(note) => {
            let is_selected = match selected_path {
                Some(path) => same_text(path, note.path.as_str()),
                None => false,
            };
            if is_open {
                let symbol = if is_selected {
                    "\u{25c6} "
                } else {
                    "  "
                };
                triple(
                    Span::styled(repeat_text("\u{2502} ", depth), Look::colored(Color::Black)),
                    Span::raw(symbol.to_owned()),
                    Span::raw(note.name.clone()),
                )
            } else if is_selected {
                single(Span::raw("\u{25c6}".to_owned()))
            } else {
                single(Span::styled("\u{25e6}".to_owned(), gray))
            }
        },
        Item::Directory { expanded, name, .. } => {
            if is_open {
                let symbol = if *expanded {
                    "\u{25be} "
                } else {
                    "\u{25b8} "
                };
                triple(
                    Span::styled(repeat_text("\u{2502} ", depth), Look::colored(Color::Black)),
                    Span::styled(symbol.to_owned(), gray),
                    Span::raw(name.clone()),
                )
            } else {
                let symbol = if *expanded {
                    "\u{25aa}"
                } else {
                    "\u{25ab}"
                };
                single(Span::styled(symbol.to_owned(), gray))
            }
        },
    }
}

} // verus!
