use basalt::list_state::ListState;
use basalt::markdown::{from_str, HeadingLevel};
use basalt::outline::item::{flatten, flatten_list};
use basalt::outline::state::{build_outline_tree, to_headings, to_items, Heading, HeadingEntry};
use basalt::outline::{FindItem, Flatten, Item, OutlineState};

fn heading(index: usize, level: HeadingLevel, content: &str) -> Heading {
    Heading {
        index,
        level,
        content: content.to_string(),
    }
}

fn entry(
    range: std::ops::Range<usize>,
    level: HeadingLevel,
    content: &str,
    children: Vec<HeadingEntry>,
) -> HeadingEntry {
    HeadingEntry {
        range,
        level,
        content: content.to_string(),
        children,
    }
}

fn leaf(range: std::ops::Range<usize>, content: &str) -> Item {
    Item::Heading {
        range,
        content: content.to_string(),
    }
}

fn branch(range: std::ops::Range<usize>, content: &str, expanded: bool, children: Vec<Item>) -> Item {
    Item::HeadingEntry {
        range,
        content: content.to_string(),
        children,
        expanded,
    }
}

use HeadingLevel::{H1, H2, H3, H5, H6};

#[test]
fn headings_of_a_note_keep_their_place_among_the_nodes() {
    let nodes = from_str("# Chapter 1\nSome paragraph content here.\n\n## Section 1.1\nMore content.\n\n- List item\n\n### Subsection `1.1.1`\nFinal content.\n");
    assert_eq!(
        to_headings(&nodes),
        vec![
            heading(0, H1, "Chapter 1"),
            heading(2, H2, "Section 1.1"),
            heading(5, H3, "Subsection 1.1.1"),
        ]
    );
    assert_eq!(to_headings(&from_str("")), vec![]);
}

#[test]
fn outline_nests_headings_below_headings_of_higher_rank() {
    let headings = vec![
        heading(0, H1, "A"),
        heading(1, H2, "B"),
        heading(2, H3, "C"),
        heading(3, H2, "D"),
        heading(4, H1, "E"),
    ];
    assert_eq!(
        build_outline_tree(&headings, 5),
        vec![
            entry(
                0..1,
                H1,
                "A",
                vec![
                    entry(1..2, H2, "B", vec![entry(2..3, H3, "C", vec![])]),
                    entry(3..4, H2, "D", vec![]),
                ]
            ),
            entry(4..5, H1, "E", vec![]),
        ]
    );
    assert_eq!(build_outline_tree(&vec![], 3), vec![]);
    assert_eq!(
        build_outline_tree(&vec![heading(2, H3, "only")], 9),
        vec![entry(2..9, H3, "only", vec![])]
    );
}

#[test]
fn outline_handles_skipped_and_rising_levels() {
    let headings = vec![
        heading(0, H1, "Level 1"),
        heading(1, H3, "Level 3"),
        heading(2, H5, "Level 5"),
        heading(3, H2, "Level 2"),
        heading(4, H6, "Level 6"),
    ];
    assert_eq!(
        build_outline_tree(&headings, 5),
        vec![entry(
            0..1,
            H1,
            "Level 1",
            vec![
                entry(1..2, H3, "Level 3", vec![entry(2..3, H5, "Level 5", vec![])]),
                entry(3..4, H2, "Level 2", vec![entry(4..5, H6, "Level 6", vec![])]),
            ]
        )]
    );
    let rising = vec![
        heading(0, H3, "c"),
        heading(2, H2, "b"),
        heading(4, H1, "a"),
    ];
    assert_eq!(
        build_outline_tree(&rising, 6),
        vec![
            entry(0..2, H3, "c", vec![]),
            entry(2..4, H2, "b", vec![]),
            entry(4..6, H1, "a", vec![]),
        ]
    );
}

#[test]
fn items_of_the_outline_are_collapsed_entries_and_headings() {
    let headings = vec![
        heading(0, H1, "A"),
        heading(1, H2, "B"),
        heading(3, H1, "E"),
    ];
    let items = to_items(&headings, 4);
    assert_eq!(
        items,
        vec![
            branch(0..1, "A", false, vec![leaf(1..3, "B")]),
            leaf(3..4, "E")
        ]
    );
    assert_eq!(items.flatten(), vec![items[0].clone(), items[1].clone()]);
    assert_eq!(*items[0].get_range(), 0..1);
    assert!(items[1].contains_index(3));
    assert!(!items[1].contains_index(4));
    assert!(!items[1].contains_index(2));
    assert_eq!(items.find_item(3), Some((1, leaf(3..4, "E"))));
    assert_eq!(items.find_item(0), Some((0, items[0].clone())));
    assert_eq!(items.find_item(1), None);
    assert_eq!(items.find_item(9), None);
    assert_eq!(Item::from(entry(0..2, H1, "x", vec![])), leaf(0..2, "x"));
}

#[test]
fn flatten_shows_the_children_of_expanded_entries() {
    let tree = branch(
        0..1,
        "A",
        true,
        vec![
            branch(1..2, "B", false, vec![leaf(2..3, "C")]),
            branch(3..4, "D", true, vec![leaf(4..5, "E")]),
        ],
    );
    let names: Vec<std::ops::Range<usize>> = flatten(&tree)
        .iter()
        .map(|item| item.get_range().clone())
        .collect();
    assert_eq!(names, vec![0..1, 1..2, 3..4, 4..5]);
    assert_eq!(flatten(&leaf(2..3, "C")), vec![leaf(2..3, "C")]);
    assert_eq!(flatten_list(&vec![]), vec![]);
    assert_eq!(vec![tree.clone(), leaf(7..8, "Z")].find_item(4), Some((3, leaf(4..5, "E"))));
}

#[test]
fn new_outline_selects_the_row_of_the_node_and_expands() {
    let nodes = from_str("# A\n## B\n### C\n## D\n# E\n");
    let state = OutlineState::new(&nodes, 4, true);
    assert_eq!(state.max_heading_count, 5);
    assert_eq!(state.selected_item_index, Some(1));
    assert_eq!(
        state.list_state,
        ListState {
            offset: 0,
            selected: Some(1)
        }
    );
    assert!(state.open);
    assert!(state.is_open());
    assert_eq!(
        state.items,
        vec![
            branch(
                0..1,
                "A",
                true,
                vec![
                    branch(1..2, "B", true, vec![leaf(2..3, "C")]),
                    leaf(3..4, "D")
                ]
            ),
            leaf(4..5, "E"),
        ]
    );
    assert_eq!(state.selected(), Some(state.items[0].flatten_first_child()));
    let none = OutlineState::new(&nodes, 2, false);
    assert_eq!(none.selected_item_index, None);
    assert_eq!(none.list_state, ListState::default());
    assert_eq!(none.selected(), None);
    assert!(!none.open);
}

trait FirstChild {
    fn flatten_first_child(&self) -> Item;
}

impl FirstChild for Item {
    fn flatten_first_child(&self) -> Item {
        match self {
            Item::HeadingEntry { children, .. } => children[0].clone(),
            other => other.clone(),
        }
    }
}

#[test]
fn toggle_and_expand_change_the_entries() {
    let nodes = from_str("# A\n## B\n### C\n## D\n# E\n");
    let state = OutlineState::new(&nodes, 0, true);
    assert_eq!(state.list_state.selected, Some(0));
    let toggled = state.toggle_item();
    assert_eq!(
        toggled.items[0],
        branch(
            0..1,
            "A",
            false,
            vec![
                branch(1..2, "B", true, vec![leaf(2..3, "C")]),
                leaf(3..4, "D")
            ]
        )
    );
    let collapsed = toggled.collapse_all();
    assert_eq!(
        collapsed.items[0],
        branch(
            0..1,
            "A",
            false,
            vec![
                branch(1..2, "B", false, vec![leaf(2..3, "C")]),
                leaf(3..4, "D")
            ]
        )
    );
    let on_heading = collapsed.next(1);
    assert_eq!(on_heading.list_state.selected, Some(1));
    let same = on_heading.toggle_item();
    assert_eq!(same.items[1], leaf(4..5, "E"));
    let expanded = same.expand_all();
    assert_eq!(expanded.items.flatten().len(), 5);
    assert_eq!(
        OutlineState::toggle_item_in_tree(&expanded.items[0], &(1..2), true),
        branch(
            0..1,
            "A",
            true,
            vec![
                branch(1..2, "B", false, vec![leaf(2..3, "C")]),
                leaf(3..4, "D")
            ]
        )
    );
    assert_eq!(
        OutlineState::toggle_item_in_tree(&expanded.items[0], &(1..2), false),
        expanded.items[0]
    );
}

#[test]
fn outline_cursor_and_flags() {
    let nodes = from_str("# A\n## B\n### C\n## D\n# E\n");
    let state = OutlineState::new(&nodes, 0, true);
    assert_eq!(state.next(2).list_state.selected, Some(2));
    let state = OutlineState::new(&nodes, 0, true);
    assert_eq!(state.next(usize::MAX).list_state.selected, Some(4));
    let state = OutlineState::new(&nodes, 0, true).next(3).previous(1);
    assert_eq!(state.list_state.selected, Some(2));
    assert_eq!(state.previous(9).list_state.selected, Some(0));
    let none = OutlineState::new(&nodes, 2, true);
    assert_eq!(none.list_state.selected, None);
    assert_eq!(none.next(3).list_state.selected, Some(0));
    let none = OutlineState::new(&nodes, 2, true).previous(1);
    assert_eq!(none.list_state.selected, None);
    let state = OutlineState::default().set_active(true).toggle();
    assert!(state.active);
    assert!(state.open);
    let state = state.close();
    assert!(!state.open);
    assert!(state.open().open);
    let other = OutlineState::default().set_nodes(&from_str("# One\n\ntext\n\n## Two\n"));
    assert_eq!(other.max_heading_count, 2);
    assert_eq!(
        other.items,
        vec![branch(0..2, "One", true, vec![leaf(2..3, "Two")])]
    );
    assert_eq!(OutlineState::default().select_at(0).selected_item_index, None);
}
