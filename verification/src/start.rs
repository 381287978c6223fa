use crate::app::Size;
use crate::list_state::ListState;
use crate::obsidian::vault::Vault;
use crate::vault_selector::{vault_views, VaultSelectorState, VaultSelectorView};
use vstd::prelude::*;

verus! {

/// The state of the start screen.
#[derive(Debug, PartialEq)]
pub struct StartState {
    pub vault_selector_state: VaultSelectorState,
    pub size: Size,
    pub version: String,
}

/// What a [`StartState`] stands for.
pub struct StartView {
    pub vault_selector_state: VaultSelectorView,
    pub size: Size,
    pub version: Seq<char>,
}

impl View for StartState {
    type V = StartView;

    open spec fn view(&self) -> StartView {
        StartView {
            vault_selector_state: self.vault_selector_state@,
            size: self.size,
            version: self.version@,
        }
    }
}

impl Clone for StartState {
    fn clone(&self) -> (res: Self)
        ensures
            res@ == self@,
    {
        StartState {
            vault_selector_state: self.vault_selector_state.clone(),
            size: self.size,
            version: self.version.clone(),
        }
    }
}

impl StartState {
    /// The start screen of the given version and size with the given vaults.
    pub fn new(version: &str, size: Size, items: Vec<Vault>) -> (state: Self)
        ensures
            state@ == (StartView {
                vault_selector_state: VaultSelectorView {
                    selected_item_index: None,
                    items: vault_views(items@),
                    list_state: ListState { offset: 0, selected: Some(0) },
                },
                size,
                version: version@,
            }),
    {
        StartState {
            version: version.to_owned(),
            size,
            vault_selector_state: VaultSelectorState::new(items),
        }
    }

    /// The state with the vault under the cursor chosen.
    pub fn select(&self) -> (state: Self)
        ensures
            state@ == (StartView {
                vault_selector_state: VaultSelectorView {
                    selected_item_index: self.vault_selector_state.list_state.selected,
                    ..self.vault_selector_state@
                },
                ..self@
            }),
    {
        let mut state = self.clone();
        state.vault_selector_state = self.vault_selector_state.select();
        state
    }

    /// The vaults.
    pub fn items(self) -> (items: Vec<Vault>)
        ensures
            items == self.vault_selector_state.items,
    {
        self.vault_selector_state.items
    }

    /// The vault at a row, if there is one.
    pub fn get_item(&self, index: usize) -> (item: Option<&Vault>)
        ensures
            index < self.vault_selector_state.items.len() ==> item == Some(
                &self.vault_selector_state.items[index as int],
            ),
            index >= self.vault_selector_state.items.len() ==> item is None,
    {
        self.vault_selector_state.get_item(index)
    }

    /// The row of the chosen vault, if one is chosen.
    pub fn selected(&self) -> (selected: Option<usize>)
        ensures
            selected == self.vault_selector_state.selected_item_index,
    {
        self.vault_selector_state.selected()
    }

    /// Moves the cursor one row down; it stops at the last row.
    pub fn next(self) -> (state: Self)
        requires
            self.vault_selector_state.list_state.selected is Some
                ==> self.vault_selector_state.items.len() >= 1,
        ensures
            state@.size == self.size,
            state@.version == self.version@,
            state@.vault_selector_state == (VaultSelectorView {
                list_state: match self.vault_selector_state.list_state.selected {
                    Some(row) => ListState {
                        selected: Some(
                            crate::explorer::state::row_after(
                                row,
                                1,
                                self.vault_selector_state.items.len(),
                            ),
                        ),
                        ..self.vault_selector_state.list_state
                    },
                    None => ListState { selected: None, offset: 0 },
                },
                ..self.vault_selector_state@
            }),
    {
        StartState {
            vault_selector_state: self.vault_selector_state.next(),
            size: self.size,
            version: self.version,
        }
    }

    /// Moves the cursor one row up; it stops at the first row.
    pub fn previous(self) -> (state: Self)
        ensures
            state@.size == self.size,
            state@.version == self.version@,
            state@.vault_selector_state == (VaultSelectorView {
                list_state: ListState {
                    selected: Some(
                        match self.vault_selector_state.list_state.selected {
                            Some(row) => crate::explorer::state::row_before(row, 1),
                            None => usize::MAX,
                        },
                    ),
                    ..self.vault_selector_state.list_state
                },
                ..self.vault_selector_state@
            }),
    {
        StartState {
            vault_selector_state: self.vault_selector_state.previous(),
            size: self.size,
            version: self.version,
        }
    }
}

} // verus!
