use crate::app::splash;
use crate::vault_selector_modal::{VaultSelectorModalState, VaultSelectorModalView};
use vstd::prelude::*;

verus! {

/// A message to the vault selector modal.
#[derive(Debug, Clone, Copy, PartialEq, Eq, Structural)]
pub enum Message {
    Toggle,
    Up,
    Down,
    Select,
    Close,
}

/// The vault selector modal after a message: the cursor moves one row up or
/// down, the vault under the cursor is chosen, or the modal is shown or
/// hidden.
pub fn update(message: Message, state: VaultSelectorModalState) -> (res: VaultSelectorModalState)
    requires
        message == Message::Down && state.vault_selector_state.list_state.selected is Some
            ==> state.vault_selector_state.items.len() >= 1,
    ensures
        res@ == match message {
            Message::Up => VaultSelectorModalView {
                vault_selector_state: splash::after(splash::Message::Up, state.vault_selector_state@),
                ..state@
            },
            Message::Down => VaultSelectorModalView {
                vault_selector_state: splash::after(
                    splash::Message::Down,
                    state.vault_selector_state@,
                ),
                ..state@
            },
            Message::Select => VaultSelectorModalView {
                vault_selector_state: splash::after(
                    splash::Message::Open,
                    state.vault_selector_state@,
                ),
                ..state@
            },
            Message::Toggle => VaultSelectorModalView { visible: !state.visible, ..state@ },
            Message::Close => VaultSelectorModalView { visible: false, ..state@ },
        },
{
    assert(state.vault_selector_state@.items.len() == state.vault_selector_state.items.len());
    match message {
        Message::Up => state.previous(),
        Message::Down => state.next(),
        Message::Toggle => state.toggle_visibility(),
        Message::Select => state.select(),
        Message::Close => state.close(),
    }
}

} // verus!
