use basalt::app::explorer::{update, Message};
use basalt::app::ScrollAmount;
use basalt::explorer::state::{calculate_offset, sort_items, sort_items_by, toggle_item_in_tree};
use basalt::explorer::{flatten, ExplorerState, Item, Sort};
use basalt::list_state::ListState;
use basalt::name_map::Order;
use basalt::obsidian::{Note, VaultEntry};

fn note(name: &str, path: &str) -> Note {
    Note {
        name: name.to_string(),
        path: path.to_string(),
    }
}

fn file(name: &str, path: &str) -> Item {
    Item::File(note(name, path))
}

fn dir(name: &str, path: &str, expanded: bool, items: Vec<Item>) -> Item {
    Item::Directory {
        name: name.to_string(),
        path: path.to_string(),
        expanded,
        items,
    }
}

fn entries() -> Vec<VaultEntry> {
    vec![
        VaultEntry::File(note("Test", "test.md")),
        VaultEntry::Directory {
            name: "TestDir".into(),
            path: "test_dir".into(),
            entries: vec![
                VaultEntry::File(note("Andesite", "test_dir/andesite.md")),
                VaultEntry::Directory {
                    name: "Notes".into(),
                    path: "test_dir/notes".into(),
                    entries: vec![VaultEntry::File(note("Pathing", "test_dir/notes/pathing.md"))],
                },
                VaultEntry::Directory {
                    name: "Amber Specs".into(),
                    path: "test_dir/amber_specs".into(),
                    entries: vec![VaultEntry::File(note(
                        "Spec_01",
                        "test_dir/amber_specs/spec_01.md",
                    ))],
                },
            ],
        },
        VaultEntry::File(note("andesite", "andesite.md")),
    ]
}

#[test]
fn calculate_offset_centres_the_row_or_shows_the_end() {
    assert_eq!(calculate_offset(0, 10, 4), 0);
    assert_eq!(calculate_offset(1, 10, 4), 0);
    assert_eq!(calculate_offset(5, 10, 4), 3);
    assert_eq!(calculate_offset(7, 10, 4), 5);
    assert_eq!(calculate_offset(8, 10, 4), 6);
    assert_eq!(calculate_offset(9, 10, 4), 6);
    assert_eq!(calculate_offset(3, 5, 4), 1);
    assert_eq!(calculate_offset(0, 0, 4), 0);
    assert_eq!(calculate_offset(2, 3, 10), 0);
    assert_eq!(calculate_offset(usize::MAX, 3, usize::MAX), 0);
    assert_eq!(calculate_offset(usize::MAX, usize::MAX, 2), usize::MAX - 2);
}

#[test]
fn directories_come_first_then_names_without_case() {
    let a = file("beta", "beta.md");
    let b = dir("Zeta", "zeta", false, vec![]);
    let c = file("Alpha", "alpha.md");
    assert_eq!(sort_items_by(Sort::Asc, &b, &a), Order::Before);
    assert_eq!(sort_items_by(Sort::Desc, &b, &a), Order::Before);
    assert_eq!(sort_items_by(Sort::Asc, &a, &b), Order::After);
    assert_eq!(sort_items_by(Sort::Asc, &c, &a), Order::Before);
    assert_eq!(sort_items_by(Sort::Desc, &c, &a), Order::After);
    assert_eq!(sort_items_by(Sort::Asc, &file("ALPHA", "x"), &c), Order::Same);
    let sorted = sort_items(vec![a.clone(), b.clone(), c.clone()], Sort::Asc);
    assert_eq!(sorted, vec![b.clone(), c.clone(), a.clone()]);
    let sorted = sort_items(vec![a.clone(), b.clone(), c.clone()], Sort::Desc);
    assert_eq!(sorted, vec![b, a, c]);
    let stable = sort_items(
        vec![file("same", "1"), file("SAME", "2"), file("Same", "3")],
        Sort::Asc,
    );
    assert_eq!(
        stable,
        vec![file("same", "1"), file("SAME", "2"), file("Same", "3")]
    );
}

#[test]
fn flatten_lists_expanded_directories_sorted_one_level_deeper() {
    let tree = dir(
        "root",
        "root",
        true,
        vec![
            file("b", "root/b.md"),
            dir("closed", "root/closed", false, vec![file("x", "root/closed/x.md")]),
            file("A", "root/a.md"),
            dir("open", "root/open", true, vec![file("y", "root/open/y.md")]),
        ],
    );
    let rows = flatten(Sort::Asc, 0, &tree);
    let shown: Vec<(&str, usize)> = rows.iter().map(|(item, depth)| (item.name(), *depth)).collect();
    assert_eq!(
        shown,
        vec![
            ("root", 0),
            ("closed", 1),
            ("open", 1),
            ("y", 2),
            ("A", 1),
            ("b", 1)
        ]
    );
    assert_eq!(rows[0].0, tree);
    let rows = flatten(Sort::Desc, 3, &tree);
    let shown: Vec<(&str, usize)> = rows.iter().map(|(item, depth)| (item.name(), *depth)).collect();
    assert_eq!(
        shown,
        vec![
            ("root", 3),
            ("open", 4),
            ("y", 5),
            ("closed", 4),
            ("b", 4),
            ("A", 4)
        ]
    );
    assert_eq!(
        flatten(Sort::Asc, usize::MAX, &tree)
            .iter()
            .map(|(_, depth)| *depth)
            .collect::<Vec<_>>(),
        vec![usize::MAX; 6]
    );
    let single = file("n", "n.md");
    assert_eq!(flatten(Sort::Asc, 2, &single), vec![(single.clone(), 2)]);
    assert!(tree.is_dir());
    assert!(!single.is_dir());
}

#[test]
fn toggle_flips_every_directory_with_the_path() {
    let tree = dir(
        "root",
        "root",
        false,
        vec![dir("in", "root/in", true, vec![]), file("f", "root/in")],
    );
    assert_eq!(
        toggle_item_in_tree(&tree, "root/in"),
        dir(
            "root",
            "root",
            false,
            vec![dir("in", "root/in", false, vec![]), file("f", "root/in")]
        )
    );
    assert_eq!(
        toggle_item_in_tree(&tree, "root"),
        dir(
            "root",
            "root",
            true,
            vec![dir("in", "root/in", true, vec![]), file("f", "root/in")]
        )
    );
    assert_eq!(toggle_item_in_tree(&tree, "elsewhere"), tree);
}

#[test]
fn new_explorer_is_sorted_collapsed_and_open() {
    let state = ExplorerState::new("Test", entries());
    assert_eq!(state.title, "Test");
    assert!(state.open);
    assert!(state.is_open());
    assert!(!state.active);
    assert_eq!(state.sort, Sort::Asc);
    assert_eq!(
        state.list_state,
        ListState {
            offset: 0,
            selected: Some(0)
        }
    );
    let names: Vec<(&str, usize)> = state
        .flat_items
        .iter()
        .map(|(item, depth)| (item.name(), *depth))
        .collect();
    assert_eq!(names, vec![("TestDir", 0), ("andesite", 0), ("Test", 0)]);
    assert_eq!(state.selected_path(), None);
    assert_eq!(Item::from(entries().remove(0)), file("Test", "test.md"));
}

#[test]
fn select_expands_a_directory_and_chooses_a_note() {
    let state = ExplorerState::new("Test", entries()).select();
    let names: Vec<(&str, usize)> = state
        .flat_items
        .iter()
        .map(|(item, depth)| (item.name(), *depth))
        .collect();
    assert_eq!(
        names,
        vec![
            ("TestDir", 0),
            ("Amber Specs", 1),
            ("Notes", 1),
            ("Andesite", 1),
            ("andesite", 0),
            ("Test", 0)
        ]
    );
    let state = state.next(3).select();
    assert_eq!(state.selected_note, Some(note("Andesite", "test_dir/andesite.md")));
    assert_eq!(state.selected_item_index, Some(3));
    assert_eq!(state.selected_path(), Some("test_dir/andesite.md".to_string()));
    let state = state.sort();
    assert_eq!(state.sort, Sort::Desc);
    let names: Vec<&str> = state.flat_items.iter().map(|(item, _)| item.name()).collect();
    assert_eq!(
        names,
        vec!["TestDir", "Notes", "Amber Specs", "Andesite", "Test", "andesite"]
    );
    let collapsed = state.previous(3).select();
    assert_eq!(collapsed.flat_items.len(), 3);
    let mut nothing = ExplorerState::new("Test", entries());
    nothing.list_state.selected = None;
    assert_eq!(nothing.select(), nothing);
    nothing.list_state.selected = Some(17);
    assert_eq!(nothing.select(), nothing);
}

#[test]
fn cursor_stops_at_the_ends() {
    let state = ExplorerState::new("Test", entries());
    assert_eq!(state.clone().next(1).list_state.selected, Some(1));
    assert_eq!(state.clone().next(usize::MAX).list_state.selected, Some(2));
    assert_eq!(state.clone().next(2).next(usize::MAX).list_state.selected, Some(2));
    assert_eq!(state.clone().next(2).previous(1).list_state.selected, Some(1));
    assert_eq!(state.clone().previous(5).list_state.selected, Some(0));
    let mut none = state.clone();
    none.list_state = ListState {
        offset: 4,
        selected: None,
    };
    assert_eq!(none.clone().next(1).list_state, ListState::default());
    assert_eq!(none.previous(1).list_state, ListState::default());
    let empty = ExplorerState::new("Empty", vec![]);
    assert_eq!(empty.clone().next(3).list_state.selected, Some(0));
    let mut moved = state.clone().next(2);
    moved.update_offset_mut(2);
    assert_eq!(moved.list_state.offset, 1);
    let mut untouched = empty;
    untouched.list_state.offset = 9;
    untouched.update_offset_mut(2);
    assert_eq!(untouched.list_state.offset, 9);
}

#[test]
fn flags_of_the_pane() {
    let state = ExplorerState::new("Test", entries());
    assert!(state.set_active(true).active);
    assert!(!state.toggle().open);
    assert!(state.toggle().open().open);
    assert!(!state.clone().close().open);
    assert!(update(Message::SwitchPane, state.clone()).active);
    assert!(!update(Message::SwitchPaneNext, state.set_active(true)).active);
    assert_eq!(update(Message::Down, state.clone()).list_state.selected, Some(1));
    assert_eq!(update(Message::Up, state.clone().next(2)).list_state.selected, Some(1));
    assert_eq!(update(Message::Sort, state.clone()).sort, Sort::Desc);
    assert_eq!(update(Message::Open, state.clone()).flat_items.len(), 6);
    assert!(!update(Message::Toggle, state.clone()).open);
    assert_eq!(
        update(Message::ScrollDown(ScrollAmount::HalfPage), state.clone()),
        state
    );
}
