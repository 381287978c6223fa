//! The messages that the panes of the interface understand.
pub mod explorer;
pub mod help_modal;
pub mod note_editor;
pub mod splash;
pub mod vault_selector_modal;

use vstd::prelude::*;

verus! {

/// How far a scroll command moves.
#[derive(Debug, Clone, Copy, PartialEq, Eq, Structural)]
pub enum ScrollAmount {
    One,
    HalfPage,
}

impl Default for ScrollAmount {
    fn default() -> (amount: Self)
        ensures
            amount == ScrollAmount::One,
    {
        ScrollAmount::One
    }
}

/// The number of rows that a scroll command moves in a view of the given
/// height: one row, or half of the rows of the view.
pub open spec fn scroll_rows(scroll_amount: ScrollAmount, height: usize) -> usize {
    match scroll_amount {
        ScrollAmount::One => 1,
        ScrollAmount::HalfPage => height / 2,
    }
}

/// The number of rows that a scroll command moves in a view of the given height.
pub fn calc_scroll_amount(scroll_amount: ScrollAmount, height: usize) -> (rows: usize)
    ensures
        rows == scroll_rows(scroll_amount, height),
{
    match scroll_amount {
        ScrollAmount::One => 1,
        ScrollAmount::HalfPage => height / 2,
    }
}

/// The size of the terminal, in columns and rows.
#[derive(Debug, Clone, Copy, PartialEq, Eq, Structural)]
pub struct Size {
    pub width: u16,
    pub height: u16,
}

/// A message to the application.
#[derive(Debug, Clone, Copy, PartialEq, Eq, Structural)]
pub enum Message {
    Quit,
    Resize(Size),
    Splash(splash::Message),
    Explorer(explorer::Message),
    NoteEditor(note_editor::Message),
    HelpModal(help_modal::Message),
    VaultSelectorModal(vault_selector_modal::Message),
}

/// The pane that takes the keys.
#[derive(Debug, Clone, Copy, PartialEq, Eq, Structural)]
pub enum ActivePane {
    Splash,
    Explorer,
    NoteEditor,
    Outline,
    HelpModal,
    VaultSelectorModal,
}

impl Default for ActivePane {
    fn default() -> (pane: Self)
        ensures
            pane == ActivePane::Splash,
    {
        ActivePane::Splash
    }
}

impl ActivePane {
    /// The name of the pane as the status bar shows it.
    pub fn name(self) -> (name: &'static str)
        ensures
            name@ == match self {
                ActivePane::Splash => "Splash"@,
                ActivePane::Explorer => "Explorer"@,
                ActivePane::NoteEditor => "Note Editor"@,
                ActivePane::Outline => "Outline"@,
                ActivePane::HelpModal => "Help"@,
                ActivePane::VaultSelectorModal => "Vault Selector"@,
            },
    {
        match self {
            ActivePane::Splash => "Splash",
            ActivePane::Explorer => "Explorer",
            ActivePane::NoteEditor => "Note Editor",
            ActivePane::Outline => "Outline",
            ActivePane::HelpModal => "Help",
            ActivePane::VaultSelectorModal => "Vault Selector",
        }
    }

    /// The pane that takes the keys: the help modal where it is visible, else
    /// the vault selector modal where it is visible, else the splash screen
    /// while it is shown, else the active pane of the main screen.
    pub fn active_component(
        help_visible: bool,
        vault_selector_visible: bool,
        main_pane: Option<ActivePane>,
    ) -> (pane: ActivePane)
        ensures
            pane == if help_visible {
                ActivePane::HelpModal
            } else if vault_selector_visible {
                ActivePane::VaultSelectorModal
            } else {
                match main_pane {
                    Some(pane) => pane,
                    None => ActivePane::Splash,
                }
            },
    {
        if help_visible {
            return ActivePane::HelpModal;
        }
        if vault_selector_visible {
            return ActivePane::VaultSelectorModal;
        }
        match main_pane {
            Some(pane) => pane,
            None => ActivePane::Splash,
        }
    }
}

} // verus!
