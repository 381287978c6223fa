use basalt::app::help_modal;
use basalt::app::splash;
use basalt::app::vault_selector_modal;
use basalt::app::note_editor::{handle_editing_event, Message as EditorMessage};
use basalt::app::{calc_scroll_amount, ActivePane, ScrollAmount, Size};
use basalt::config::{Key, KeyCode, KeyModifiers};
use basalt::help_modal::HelpModalState;
use basalt::list_state::{ListState, Scrollbar, ScrollbarState};
use basalt::markdown::{ItemKind, ListKind};
use basalt::markdown::view::item_kind;
use basalt::note_editor::editor::{callout_symbol, parse_callout_type};
use basalt::note_editor::state::MarkdownViewState;
use basalt::note_editor::text_buffer::{moved_cursor, shift};
use basalt::note_editor::{CursorMove, Mode};
use basalt::obsidian::{Note, Vault};
use basalt::sidepanel::SidePanelState;
use basalt::start::StartState;
use basalt::statusbar::{count_label, StatusBarState};
use basalt::text::{count_lines, decimal_text, lines, parse_small_number, split};
use basalt::vault_selector::VaultSelectorState;
use basalt::vault_selector_modal::{ModalState, ModalTitle, VaultSelectorModalState};

fn vault(name: &str) -> Vault {
    Vault {
        name: name.to_string(),
        path: format!("/v/{name}"),
        open: false,
        ts: 0,
    }
}

#[test]
fn list_state_select_resets_the_offset_only_for_none() {
    let mut state = ListState {
        offset: 5,
        selected: Some(2),
    };
    state.select(Some(7));
    assert_eq!(state, ListState { offset: 5, selected: Some(7) });
    state.select_previous();
    assert_eq!(state.selected(), Some(6));
    state.select(None);
    assert_eq!(state, ListState { offset: 0, selected: None });
    state.select_previous();
    assert_eq!(state.selected(), Some(usize::MAX));
    let mut first = ListState::default().with_selected(Some(0));
    first.select_previous();
    assert_eq!(first.selected(), Some(0));
    assert_eq!(first.offset(), 0);
}

#[test]
fn scrollbar_stops_at_both_ends() {
    let bar = Scrollbar {
        state: ScrollbarState::new(10),
        position: 3,
    };
    assert_eq!(bar.scroll_up(2).position, 1);
    assert_eq!(bar.scroll_up(9).position, 0);
    assert_eq!(bar.scroll_down(4).position, 7);
    assert_eq!(bar.scroll_down(4).state, ScrollbarState { content_length: 10, position: 7 });
    assert_eq!(bar.scroll_down(usize::MAX).position, usize::MAX);
    assert_eq!(ScrollbarState::new(3).content_length(8).position(2), ScrollbarState { content_length: 8, position: 2 });
    assert_eq!(Scrollbar::default().position, 0);
}

#[test]
fn count_lines_agrees_with_std_lines() {
    for text in ["", "a", "a\n", "a\nb", "a\nb\n", "\n", "\n\n", "a\r\nb", "x\n\ny"] {
        assert_eq!(count_lines(text), text.lines().count(), "for {text:?}");
    }
    assert_eq!(count_lines("one\ntwo\nthree"), 3);
    for text in ["", "a", "a\n", "a\nb", "\n", "\n\n", "a\r\nb\r\n", "a\r", "\r", "\r\n", "foo\nbar\n\r\nbaz\r", "a\r\r\nb"] {
        let expected: Vec<String> = text.lines().map(str::to_string).collect();
        assert_eq!(lines(text), expected, "for {text:?}");
    }
    assert_eq!(lines("foo\nbar\n\r\nbaz\r"), vec!["foo", "bar", "", "baz\r"]);
    assert_eq!(MarkdownViewState::new("x\ny\n").get_lines(), vec!["x", "y"]);
}

#[test]
fn help_modal_scrolls_within_its_text() {
    let state = HelpModalState::new("one\ntwo\nthree");
    assert_eq!(state.scrollbar_state, ScrollbarState { content_length: 3, position: 0 });
    assert!(!state.visible);
    let state = state.scroll_down(2);
    assert_eq!(state.scrollbar_position, 2);
    assert_eq!(state.scrollbar_state.position, 2);
    let state = state.scroll_down(usize::MAX);
    assert_eq!(state.scrollbar_position, 3);
    let state = state.scroll_up(1);
    assert_eq!(state.scrollbar_position, 2);
    let state = state.scroll_up(5);
    assert_eq!(state.scrollbar_position, 0);
    let state = state.scroll_down(1).reset_scrollbar();
    assert_eq!(state.scrollbar_position, 0);
    assert_eq!(state.scrollbar_state, ScrollbarState::default());
    let state = help_modal::update(help_modal::Message::Toggle, state);
    assert!(state.visible);
    let state = help_modal::update(help_modal::Message::ScrollUp(ScrollAmount::One), state);
    assert!(state.visible);
    let state = help_modal::update(help_modal::Message::Close, state);
    assert!(!state.visible);
    assert!(state.toggle_visibility().close().text == "one\ntwo\nthree");
}

#[test]
fn modal_state_and_title() {
    let title = ModalTitle::new("Help", Some("(?)"));
    assert_eq!(title.left, "Help");
    assert_eq!(title.right.as_deref(), Some("(?)"));
    assert_eq!(ModalTitle::new("x", None).right, None);
    let state = ModalState::new(title, "a\nb");
    assert_eq!(state.scrollbar_state.content_length, 2);
    assert!(!state.is_open);
    let state = state.scroll_down(5);
    assert_eq!(state.scrollbar_position, 2);
    let state = state.scroll_up(1);
    assert_eq!(state.scrollbar_position, 1);
    assert_eq!(state.reset_scrollbar().scrollbar_position, 0);
}

#[test]
fn vault_selector_moves_and_selects() {
    let state = VaultSelectorState::new(vec![vault("a"), vault("b"), vault("c")]);
    assert_eq!(state.selected(), None);
    assert_eq!(state.list_state.selected, Some(0));
    let state = state.next().next().next();
    assert_eq!(state.list_state.selected, Some(2));
    let state = state.select();
    assert_eq!(state.selected(), Some(2));
    assert_eq!(state.get_item(2), Some(&vault("c")));
    assert_eq!(state.get_item(3), None);
    let state = state.previous().previous().previous();
    assert_eq!(state.list_state.selected, Some(0));
    assert_eq!(state.clone().items().len(), 3);
    assert_eq!(VaultSelectorState::default().items.len(), 0);
    let modal = VaultSelectorModalState::new(vec![vault("a"), vault("b")]);
    assert!(!modal.visible);
    let modal = vault_selector_modal::update(vault_selector_modal::Message::Toggle, modal);
    assert!(modal.visible);
    let modal = vault_selector_modal::update(vault_selector_modal::Message::Down, modal);
    let modal = vault_selector_modal::update(vault_selector_modal::Message::Down, modal);
    let modal = vault_selector_modal::update(vault_selector_modal::Message::Select, modal);
    assert_eq!(modal.selected(), Some(1));
    assert_eq!(modal.get_item(1), Some(&vault("b")));
    let modal = vault_selector_modal::update(vault_selector_modal::Message::Up, modal);
    assert_eq!(modal.vault_selector_state.list_state.selected, Some(0));
    let modal = vault_selector_modal::update(vault_selector_modal::Message::Close, modal);
    assert!(!modal.visible);
    assert!(modal.toggle_visibility().visible);
}

#[test]
fn start_screen_follows_its_messages() {
    let size = Size { width: 80, height: 24 };
    let state = StartState::new("0.1", size, vec![vault("a"), vault("b")]);
    assert_eq!(state.version, "0.1");
    assert_eq!(state.size, size);
    let state = splash::update(splash::Message::Down, state);
    let state = splash::update(splash::Message::Open, state);
    assert_eq!(state.selected(), Some(1));
    assert_eq!(state.get_item(1), Some(&vault("b")));
    let state = splash::update(splash::Message::Up, state);
    assert_eq!(state.vault_selector_state.list_state.selected, Some(0));
    assert_eq!(state.items(), vec![vault("a"), vault("b")]);
}

#[test]
fn side_panel_moves_and_selects() {
    let notes = vec![
        Note { name: "a".into(), path: "a.md".into() },
        Note { name: "b".into(), path: "b.md".into() },
        Note { name: "c".into(), path: "c.md".into() },
    ];
    let state = SidePanelState::new("Vault", notes);
    assert!(state.is_open());
    assert_eq!(state.selected(), None);
    let state = state.next().next().next().select();
    assert_eq!(state.selected(), Some(2));
    assert_eq!(state.calculate_offset(2), 1);
    let mut state = state.previous();
    assert_eq!(state.list_state.selected, Some(1));
    state.update_offset_mut(2);
    assert_eq!(state.list_state.offset, 0);
    assert!(!state.clone().close().open);
    assert!(state.clone().close().toggle().open);
    assert!(state.toggle().open().open);
}

#[test]
fn status_bar_counts_words_and_chars() {
    let state = StatusBarState::new("Explorer", 1, 12);
    assert_eq!(state.active_component_name, "Explorer");
    assert_eq!(state.word_label(), "1 word");
    assert_eq!(state.char_label(), "12 chars");
    assert_eq!(count_label(0, "word"), "0 words");
    assert_eq!(count_label(1, "char"), "1 char");
    assert_eq!(decimal_text(0), "0");
    assert_eq!(decimal_text(9), "9");
    assert_eq!(decimal_text(10), "10");
    assert_eq!(decimal_text(4096), "4096");
    assert_eq!(decimal_text(u64::MAX), u64::MAX.to_string());
}

#[test]
fn text_helpers() {
    assert_eq!(split("ctrl+g", '+'), vec!["ctrl", "g"]);
    assert_eq!(split("", '+'), vec![""]);
    assert_eq!(split("+", '+'), vec!["", ""]);
    assert_eq!(split("a++b+", '+'), vec!["a", "", "b", ""]);
    assert_eq!(parse_small_number("f12", 1), Some(12));
    assert_eq!(parse_small_number("255", 0), Some(255));
    assert_eq!(parse_small_number("256", 0), None);
    assert_eq!(parse_small_number("99999999999999999999", 0), None);
    assert_eq!(parse_small_number("x", 1), None);
    assert_eq!(parse_small_number("+0", 0), Some(0));
    assert_eq!(parse_small_number("1٣", 0), None);
}

#[test]
fn panes_modes_and_scroll_amounts() {
    assert_eq!(calc_scroll_amount(ScrollAmount::One, 40), 1);
    assert_eq!(calc_scroll_amount(ScrollAmount::HalfPage, 41), 20);
    assert_eq!(calc_scroll_amount(ScrollAmount::HalfPage, 1), 0);
    assert_eq!(ScrollAmount::default(), ScrollAmount::One);
    assert_eq!(ActivePane::default(), ActivePane::Splash);
    assert_eq!(ActivePane::NoteEditor.name(), "Note Editor");
    assert_eq!(ActivePane::VaultSelectorModal.name(), "Vault Selector");
    assert_eq!(ActivePane::HelpModal.name(), "Help");
    assert_eq!(
        ActivePane::active_component(true, true, Some(ActivePane::Explorer)),
        ActivePane::HelpModal
    );
    assert_eq!(
        ActivePane::active_component(false, true, Some(ActivePane::Explorer)),
        ActivePane::VaultSelectorModal
    );
    assert_eq!(
        ActivePane::active_component(false, false, Some(ActivePane::Explorer)),
        ActivePane::Explorer
    );
    assert_eq!(ActivePane::active_component(false, false, None), ActivePane::Splash);
    assert_eq!(Mode::default(), Mode::Read);
    assert_eq!(Mode::View.label(), "VIEW");
    assert_eq!(Mode::Edit.label(), "EDIT");
    assert_eq!(Mode::Read.label(), "READ");
}

#[test]
fn editing_keys_become_messages() {
    let key = |code| Key::new(code, KeyModifiers::none());
    assert_eq!(handle_editing_event(&key(KeyCode::Up)), Some(EditorMessage::CursorUp));
    assert_eq!(handle_editing_event(&key(KeyCode::Down)), Some(EditorMessage::CursorDown));
    assert_eq!(handle_editing_event(&key(KeyCode::Esc)), Some(EditorMessage::ExitMode));
    assert_eq!(handle_editing_event(&key(KeyCode::Backspace)), Some(EditorMessage::Delete));
    assert_eq!(
        handle_editing_event(&key(KeyCode::Char('x'))),
        Some(EditorMessage::KeyEvent(key(KeyCode::Char('x'))))
    );
}

#[test]
fn cursor_moves_stop_at_the_bounds() {
    assert_eq!(shift(5, 3), 8);
    assert_eq!(shift(5, -3), 2);
    assert_eq!(shift(5, -9), 0);
    assert_eq!(shift(5, 0), 5);
    assert_eq!(shift(usize::MAX, 1), usize::MAX);
    assert_eq!(shift(usize::MAX, i32::MIN), usize::MAX - 2147483648);
    assert_eq!(shift(7, i32::MIN), 0);
    assert_eq!(moved_cursor((2, 3), -1, 4), (1, 7));
    assert_eq!(CursorMove::from((0, -2)), CursorMove::Move(0, -2));
}

#[test]
fn list_items_count_from_the_start_of_the_list() {
    assert_eq!(item_kind(ListKind::Ordered(1), 0), ItemKind::Ordered(1));
    assert_eq!(item_kind(ListKind::Ordered(1), 1), ItemKind::Ordered(2));
    assert_eq!(item_kind(ListKind::Ordered(7), 3), ItemKind::Ordered(10));
    assert_eq!(item_kind(ListKind::Unordered, 3), ItemKind::Unordered);
    assert_eq!(item_kind(ListKind::Ordered(u64::MAX), 3), ItemKind::Ordered(u64::MAX));
    assert_eq!(parse_callout_type("[!note] Title"), Some("note".to_string()));
    assert_eq!(parse_callout_type("x [! Tip  ] y ]"), Some("Tip".to_string()));
    assert_eq!(parse_callout_type("[!]"), Some(String::new()));
    assert_eq!(parse_callout_type("[! ]"), Some(String::new()));
    assert_eq!(parse_callout_type("[!note"), None);
    assert_eq!(parse_callout_type("note]"), None);
    assert_eq!(parse_callout_type(""), None);
    assert_eq!(parse_callout_type("["), None);
    assert_eq!(callout_symbol("Note"), Some("ⓘ"));
    assert_eq!(callout_symbol("Warning"), Some("⚠"));
    assert_eq!(callout_symbol("Tip"), Some("☆"));
    assert_eq!(callout_symbol("Important"), Some("‼"));
    assert_eq!(callout_symbol("Caution"), Some("⊗"));
    assert_eq!(callout_symbol("note"), None);
}

#[test]
fn markdown_view_state_scrolls() {
    let state = MarkdownViewState::new("text");
    assert_eq!(state.text, "text");
    let state = state.scroll_down(3).scroll_up(1);
    assert_eq!(state.scrollbar.position, 2);
    assert_eq!(state.scrollbar.state.position, 2);
    let state = state.set_text("other".to_string());
    assert_eq!(state.text, "other");
    assert_eq!(state.reset_scrollbar().scrollbar, Scrollbar::default());
}
