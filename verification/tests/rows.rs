use basalt::explorer::view::list_item;
use basalt::explorer::Item;
use basalt::outline::Item as Heading;
use basalt::markdown::view::{Color, Line, Look, Span};
use basalt::obsidian::{Note, Vault};
use basalt::outline::view::{to_collapsed_items, to_list_items};
use basalt::sidepanel::SidePanelState;
use basalt::text::repeat_text;
use basalt::vault_selector::VaultSelectorState;

fn raw(content: &str) -> Span {
    Span::raw(content.to_string())
}

fn gray(content: &str) -> Span {
    Span::styled(content.to_string(), Look::colored(Color::DarkGray))
}

fn black(content: &str) -> Span {
    Span::styled(content.to_string(), Look::colored(Color::Black))
}

fn note(name: &str, path: &str) -> Note {
    Note {
        name: name.into(),
        path: path.into(),
    }
}

#[test]
fn explorer_rows_show_depth_symbol_and_name() {
    let file = Item::File(note("a", "dir/a.md"));
    let dir = Item::Directory {
        name: "dir".into(),
        path: "dir".into(),
        expanded: true,
        items: vec![],
    };
    let closed = Item::Directory {
        name: "dir".into(),
        path: "dir".into(),
        expanded: false,
        items: vec![],
    };
    let plain = Look::plain();
    assert_eq!(
        list_item(&file, 2, Some("dir/a.md"), true),
        Line::of(vec![black("│ │ "), raw("◆ "), raw("a")], plain)
    );
    assert_eq!(
        list_item(&file, 0, Some("other.md"), true),
        Line::of(vec![black(""), raw("  "), raw("a")], plain)
    );
    assert_eq!(
        list_item(&file, 0, None, true),
        Line::of(vec![black(""), raw("  "), raw("a")], plain)
    );
    assert_eq!(
        list_item(&file, 1, Some("dir/a.md"), false),
        Line::of(vec![raw("◆")], plain)
    );
    assert_eq!(
        list_item(&file, 1, None, false),
        Line::of(vec![gray("◦")], plain)
    );
    assert_eq!(
        list_item(&dir, 1, None, true),
        Line::of(vec![black("│ "), gray("▾ "), raw("dir")], plain)
    );
    assert_eq!(
        list_item(&closed, 0, Some("dir"), true),
        Line::of(vec![black(""), gray("▸ "), raw("dir")], plain)
    );
    assert_eq!(list_item(&dir, 0, None, false), Line::of(vec![gray("▪")], plain));
    assert_eq!(list_item(&closed, 0, None, false), Line::of(vec![gray("▫")], plain));
    assert_eq!(repeat_text("ab", 3), "ababab");
    assert_eq!(repeat_text("ab", 0), "");
}

fn outline() -> Vec<Heading> {
    vec![
        Heading::HeadingEntry {
            range: 0..1,
            content: "A".into(),
            expanded: true,
            children: vec![
                Heading::HeadingEntry {
                    range: 1..2,
                    content: "B".into(),
                    expanded: false,
                    children: vec![Heading::Heading {
                        range: 2..3,
                        content: "C".into(),
                    }],
                },
                Heading::Heading {
                    range: 3..4,
                    content: "D".into(),
                },
            ],
        },
        Heading::Heading {
            range: 4..5,
            content: "E".into(),
        },
    ]
}

#[test]
fn outline_rows_follow_the_expanded_entries() {
    let plain = Look::plain();
    assert_eq!(
        to_list_items(&outline(), 0),
        vec![
            Line::of(vec![black(""), raw("▾ "), raw("A")], plain),
            Line::of(vec![black("│ "), raw("▸ "), raw("B")], plain),
            Line::of(vec![black("│ "), raw("  "), raw("D")], plain),
            Line::of(vec![black(""), raw("  "), raw("E")], plain),
        ]
    );
    assert_eq!(to_list_items(&vec![], 3), vec![]);
    let dim_gray = Look {
        dim: true,
        ..Look::colored(Color::DarkGray)
    };
    let dim_red = Look {
        dim: true,
        ..Look::colored(Color::Red)
    };
    assert_eq!(
        to_collapsed_items(&outline()),
        vec![
            Line::text("✺".into(), dim_red),
            Line::text("◦".into(), dim_gray),
            Line::text("·".into(), dim_gray),
            Line::text("·".into(), dim_gray),
        ]
    );
}

#[test]
fn side_panel_and_vault_selector_rows() {
    let state = SidePanelState::new("V", vec![note("a", "a.md"), note("b", "b.md")])
        .next()
        .select();
    assert_eq!(state.rows(), vec!["  a", "◆ b"]);
    assert_eq!(state.close().rows(), vec!["◦", "◆"]);
    let vaults = VaultSelectorState::new(vec![
        Vault {
            name: "one".into(),
            path: "/one".into(),
            open: true,
            ts: 0,
        },
        Vault {
            name: "two".into(),
            path: "/two".into(),
            open: false,
            ts: 0,
        },
    ]);
    assert_eq!(vaults.rows(), vec!["◆ one", "  two"]);
}
