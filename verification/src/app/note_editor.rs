use crate::app::ScrollAmount;
use crate::config::key_binding::{Key, KeyCode};
use vstd::prelude::*;

verus! {

/// A message to the note editor.
#[derive(Debug, Clone, Copy, PartialEq, Eq, Structural)]
pub enum Message {
    Save,
    SwitchPane,
    SwitchPaneNext,
    SwitchPanePrevious,
    ToggleExplorer,
    EditMode,
    ExitMode,
    ReadMode,
    KeyEvent(Key),
    CursorUp,
    CursorLeft,
    CursorRight,
    CursorWordForward,
    CursorWordBackward,
    CursorDown,
    ScrollUp(ScrollAmount),
    ScrollDown(ScrollAmount),
    Delete,
}

/// The message that a key stands for while a note is edited: the arrows up and
/// down move the cursor, escape leaves the mode, backspace deletes, and every
/// other key goes to the text as it is.
pub fn handle_editing_event(key: &Key) -> (message: Option<Message>)
    ensures
        message == Some(
            match key.code {
                KeyCode::Up => Message::CursorUp,
                KeyCode::Down => Message::CursorDown,
                KeyCode::Esc => Message::ExitMode,
                KeyCode::Backspace => Message::Delete,
                _ => Message::KeyEvent(*key),
            },
        ),
{
    match key.code {
        KeyCode::Up => Some(Message::CursorUp),
        KeyCode::Down => Some(Message::CursorDown),
        KeyCode::Esc => Some(Message::ExitMode),
        KeyCode::Backspace => Some(Message::Delete),
        _ => Some(Message::KeyEvent(*key)),
    }
}

} // verus!
