use basalt::list_state::Scrollbar;
use basalt::markdown::from_str;
use basalt::note_editor::state::is_blank;
use basalt::note_editor::{BufferAction, CursorMove, EditorState, Mode};
use basalt::text::{slice, tail};

const NOTE: &str = "# Title\n\nFirst paragraph.\n\nSecond one.\n";

fn load(text: &str) -> BufferAction {
    BufferAction::Load(text.to_string())
}

#[test]
fn slices_follow_character_boundaries() {
    assert_eq!(slice("héllo", 0, 1), Some("h".to_string()));
    assert_eq!(slice("héllo", 1, 3), Some("é".to_string()));
    assert_eq!(slice("héllo", 1, 2), None);
    assert_eq!(slice("héllo", 2, 3), None);
    assert_eq!(slice("héllo", 3, 1), None);
    assert_eq!(slice("héllo", 0, 6), Some("héllo".to_string()));
    assert_eq!(slice("héllo", 6, 6), Some(String::new()));
    assert_eq!(slice("héllo", 0, 7), None);
    assert_eq!(slice("", 0, 0), Some(String::new()));
    assert_eq!(tail("héllo", 3), Some("llo".to_string()));
    assert_eq!(tail("héllo", 2), None);
    assert_eq!(tail("héllo", 6), Some(String::new()));
    assert_eq!(tail("héllo", 7), None);
    assert!(is_blank(" \t\n\u{00a0}"));
    assert!(is_blank(""));
    assert!(!is_blank(" x "));
}

#[test]
fn new_editor_reads_the_note() {
    let state = EditorState::new(NOTE, "note.md".to_string());
    assert_eq!(state.nodes, from_str(NOTE));
    assert_eq!(state.nodes(), &from_str(NOTE));
    assert_eq!(*state.scrollbar(), Scrollbar::default());
    assert_eq!(state.content(), NOTE);
    assert_eq!(state.content_original, NOTE);
    assert_eq!(state.mode(), Mode::Read);
    assert!(!state.is_editing());
    assert!(!state.active());
    assert!(!state.modified);
    assert_eq!(state.current_row, 0);
    assert_eq!(state.source(), Some("# Title\n".to_string()));
    assert_eq!(state.update_text_buffer(), vec![load("# Title\n")]);
    assert_eq!(EditorState::default().source(), None);
    assert_eq!(EditorState::default().update_text_buffer(), vec![]);
}

#[test]
fn set_content_loads_the_current_node() {
    let (state, actions) = EditorState::default()
        .set_mode(Mode::Edit)
        .set_content(NOTE);
    assert!(state.is_editing());
    assert_eq!(state.content_original, NOTE);
    assert_eq!(actions, vec![load("# Title\n")]);
    let state = state.set_path("x.md".to_string()).set_active(true);
    assert_eq!(state.path, "x.md");
    assert!(state.active());
}

#[test]
fn cursor_moves_between_nodes_at_their_ends() {
    let (state, _) = EditorState::default().set_content(NOTE);
    let (state, actions) = state.cursor_up(3, "whatever");
    assert_eq!(actions, vec![BufferAction::Move(CursorMove::Up)]);
    assert_eq!(state.current_row, 0);
    let (state, actions) = state.cursor_up(0, "# Title");
    assert_eq!(actions, vec![]);
    assert_eq!(state.current_row, 0);
    let (state, actions) = state.cursor_down(0, 2, "# Title");
    assert_eq!(actions, vec![BufferAction::Move(CursorMove::Down)]);
    let (state, actions) = state.cursor_down(1, 2, "# Title");
    assert_eq!(state.current_row, 1);
    assert_eq!(
        actions,
        vec![
            load("First paragraph.\n"),
            BufferAction::Move(CursorMove::Top)
        ]
    );
    let (state, _) = state.cursor_down(0, 1, "First paragraph.");
    assert_eq!(state.current_row, 2);
    let (state, actions) = state.cursor_down(0, 1, "Second one.");
    assert_eq!(state.current_row, 2);
    assert_eq!(actions, vec![]);
    let (state, actions) = state.cursor_up(0, "Second one.");
    assert_eq!(state.current_row, 1);
    assert_eq!(
        actions,
        vec![
            load("First paragraph.\n"),
            BufferAction::Move(CursorMove::Bottom)
        ]
    );
    let (state, actions) = EditorState::default().cursor_down(0, 0, "");
    assert_eq!(state.current_row, 0);
    assert_eq!(actions, vec![]);
}

#[test]
fn pending_changes_are_saved_when_the_node_is_left() {
    let (state, _) = EditorState::default().set_content(NOTE);
    let (state, _) = state.cursor_down(0, 1, "# Title");
    let state = state.edit(false);
    assert!(!state.dirty);
    let state = state.edit(true).edit(false);
    assert!(state.dirty);
    let (state, actions) = state.cursor_down(0, 1, "Changed paragraph.");
    assert!(!state.dirty);
    assert!(state.modified);
    assert_eq!(
        state.content(),
        "# Title\n\nChanged paragraph.\n\nSecond one.\n"
    );
    assert_eq!(state.nodes, from_str(state.content()));
    assert_eq!(state.current_row, 2);
    assert_eq!(
        actions,
        vec![
            load("Changed paragraph.\n"),
            load("Second one.\n"),
            BufferAction::Move(CursorMove::Top)
        ]
    );
    let state = state.save(false);
    assert!(state.modified);
    let state = state.save(true);
    assert!(!state.modified);
}

#[test]
fn intermediate_save_splices_the_text_of_the_node() {
    let (state, _) = EditorState::default().set_content(NOTE);
    let (state, _) = state.cursor_down(0, 1, "# Title");
    let (same, actions) = state.intermediate_save("First paragraph.");
    assert_eq!(same.content(), NOTE);
    assert!(!same.modified);
    assert_eq!(actions, vec![]);
    let (changed, actions) = same.exit_insert("New");
    assert_eq!(changed.content(), "# Title\n\nNew\n\nSecond one.\n");
    assert!(changed.modified);
    assert_eq!(actions, vec![load("New\n")]);
    let (empty, actions) = EditorState::default().intermediate_save("x");
    assert_eq!(empty, EditorState::default());
    assert_eq!(actions, vec![]);
}

#[test]
fn delete_char_joins_nodes_or_deletes() {
    let (state, _) = EditorState::default().set_content(NOTE);
    let (state, _) = state.cursor_down(0, 1, "# Title");
    let (state, actions) = state.delete_char((0, 3), "First paragraph.");
    assert_eq!(actions, vec![BufferAction::Backspace]);
    assert!(state.dirty);
    assert_eq!(state.current_row, 1);
    let (state, actions) = state.delete_char((0, 0), "First paragraph.");
    assert_eq!(actions, vec![BufferAction::Prepend("# Title\n".to_string())]);
    assert_eq!(state.current_row, 0);
    assert_eq!(state.nodes.len(), 2);
    assert_eq!(state.nodes[0].source_range, 0..26);
    assert_eq!(state.nodes[1].source_range, 27..39);
    let (state, actions) = state.delete_char((0, 0), "text");
    assert_eq!(actions, vec![BufferAction::Backspace]);
    let (state, actions) = state.delete_char((0, 0), "  ");
    assert_eq!(actions.len(), 1);
    assert_eq!(state.current_row, 0);
    assert!(state.modified);
}

#[test]
fn editor_scrolls_and_resets() {
    let state = EditorState::new(NOTE, "n.md".into())
        .set_mode(Mode::View)
        .scroll_down(5)
        .scroll_up(2);
    assert_eq!(state.scrollbar.position, 3);
    assert_eq!(state.scrollbar.state.position, 3);
    let state = state.reset();
    assert_eq!(state.mode(), Mode::View);
    assert_eq!(state.content(), "");
    assert_eq!(state.nodes, vec![]);
    assert_eq!(state.scrollbar, Scrollbar::default());
}
