use crate::list_state::ListState;
use crate::start::{StartState, StartView};
use crate::vault_selector::VaultSelectorView;
use vstd::prelude::*;

verus! {

/// A message to the splash screen.
#[derive(Debug, Clone, Copy, PartialEq, Eq, Structural)]
pub enum Message {
    Up,
    Down,
    Open,
}

/// What the list of vaults of the splash screen stands for after a message: the
/// cursor moves one row up or down, or the vault under the cursor is chosen.
pub open spec fn after(message: Message, view: VaultSelectorView) -> VaultSelectorView {
    match message {
        Message::Up => VaultSelectorView {
            list_state: ListState {
                selected: Some(
                    match view.list_state.selected {
                        Some(row) => crate::explorer::state::row_before(row, 1),
                        None => usize::MAX,
                    },
                ),
                ..view.list_state
            },
            ..view
        },
        Message::Down => VaultSelectorView {
            list_state: match view.list_state.selected {
                Some(row) => ListState {
                    selected: Some(
                        crate::explorer::state::row_after(row, 1, view.items.len() as usize),
                    ),
                    ..view.list_state
                },
                None => ListState { selected: None, offset: 0 },
            },
            ..view
        },
        Message::Open => VaultSelectorView {
            selected_item_index: view.list_state.selected,
            ..view
        },
    }
}

/// The splash screen after a message.
pub fn update(message: Message, state: StartState) -> (res: StartState)
    requires
        message == Message::Down && state.vault_selector_state.list_state.selected is Some
            ==> state.vault_selector_state.items.len() >= 1,
    ensures
        res@ == (StartView {
            vault_selector_state: after(message, state.vault_selector_state@),
            ..state@
        }),
{
    assert(state.vault_selector_state@.items.len() == state.vault_selector_state.items.len());
    match message {
        Message::Up => state.previous(),
        Message::Down => state.next(),
        Message::Open => state.select(),
    }
}

} // verus!
