use crate::list_state::ListState;
use crate::obsidian::vault::{Vault, VaultView};
use vstd::prelude::*;
use vstd::string::StringExecFns;

verus! {

/// The state of the list of vaults to choose from.
#[derive(Debug, PartialEq)]
pub struct VaultSelectorState {
    pub selected_item_index: Option<usize>,
    pub items: Vec<Vault>,
    pub list_state: ListState,
}

/// What a sequence of vaults stands for.
pub open spec fn vault_views(vaults: Seq<Vault>) -> Seq<VaultView> {
    Seq::new(vaults.len(), |i: int| vaults[i]@)
}

/// What a [`VaultSelectorState`] stands for.
pub struct VaultSelectorView {
    pub selected_item_index: Option<usize>,
    pub items: Seq<VaultView>,
    pub list_state: ListState,
}

impl View for VaultSelectorState {
    type V = VaultSelectorView;

    open spec fn view(&self) -> VaultSelectorView {
        VaultSelectorView {
            selected_item_index: self.selected_item_index,
            items: vault_views(self.items@),
            list_state: self.list_state,
        }
    }
}

/// Copies a list of vaults.
pub fn clone_vaults(vaults: &Vec<Vault>) -> (copy: Vec<Vault>)
    ensures
        vault_views(copy@) == vault_views(vaults@),
{
    let mut copy: Vec<Vault> = Vec::new();
    let mut i: usize = 0;
    while i < vaults.len()
        invariant
            i <= vaults.len(),
            copy.len() == i,
            forall|k: int| 0 <= k < i ==> (#[trigger] copy[k])@ == vaults[k]@,
        decreases vaults.len() - i,
    {
        copy.push(vaults[i].clone());
        i += 1;
    }
    assert(vault_views(copy@) =~= vault_views(vaults@));
    copy
}

impl Clone for VaultSelectorState {
    fn clone(&self) -> (res: Self)
        ensures
            res@ == self@,
    {
        VaultSelectorState {
            selected_item_index: self.selected_item_index,
            items: clone_vaults(&self.items),
            list_state: self.list_state,
        }
    }
}

impl Default for VaultSelectorState {
    fn default() -> (state: Self)
        ensures
            state@ == (VaultSelectorView {
                selected_item_index: None,
                items: Seq::empty(),
                list_state: ListState { offset: 0, selected: None },
            }),
    {
        let state = VaultSelectorState {
            selected_item_index: None,
            items: Vec::new(),
            list_state: ListState::default(),
        };
        assert(state@.items =~= Seq::<VaultView>::empty());
        state
    }
}

impl VaultSelectorState {
    /// The selector of the given vaults: the cursor on the first row, no vault
    /// chosen.
    pub fn new(items: Vec<Vault>) -> (state: Self)
        ensures
            state@ == (VaultSelectorView {
                selected_item_index: None,
                items: vault_views(items@),
                list_state: ListState { offset: 0, selected: Some(0) },
            }),
    {
        VaultSelectorState {
            items,
            selected_item_index: None,
            list_state: ListState::default().with_selected(Some(0)),
        }
    }

    /// The state with the vault under the cursor chosen.
    pub fn select(&self) -> (state: Self)
        ensures
            state@ == (VaultSelectorView {
                selected_item_index: self.list_state.selected,
                ..self@
            }),
    {
        let mut state = self.clone();
        state.selected_item_index = self.list_state.selected();
        state
    }

    /// The vaults.
    pub fn items(self) -> (items: Vec<Vault>)
        ensures
            items == self.items,
    {
        self.items
    }

    /// The vault at a row, if there is one.
    pub fn get_item(&self, index: usize) -> (item: Option<&Vault>)
        ensures
            index < self.items.len() ==> item == Some(&self.items[index as int]),
            index >= self.items.len() ==> item is None,
    {
        if index < self.items.len() {
            Some(&self.items[index])
        } else {
            None
        }
    }

    /// The row of the chosen vault, if one is chosen.
    pub fn selected(&self) -> (selected: Option<usize>)
        ensures
            selected == self.selected_item_index,
    {
        self.selected_item_index
    }

    /// Moves the cursor one row down; it stops at the last row.
    pub fn next(self) -> (state: Self)
        requires
            self.list_state.selected is Some ==> self.items.len() >= 1,
        ensures
            state@ == (VaultSelectorView {
                list_state: match self.list_state.selected {
                    Some(row) => ListState {
                        selected: Some(
                            crate::explorer::state::row_after(row, 1, self.items.len()),
                        ),
                        ..self.list_state
                    },
                    None => ListState { selected: None, offset: 0 },
                },
                ..self@
            }),
    {
        let mut state = self;
        let index = match state.list_state.selected() {
            Some(row) => {
                let last = state.items.len() - 1;
                Some(if row >= last {
                    last
                } else {
                    row + 1
                })
            },
            None => None,
        };
        state.list_state.select(index);
        state
    }

    /// Moves the cursor one row up; it stops at the first row. A cursor that
    /// stood on no row stands on the last row.
    pub fn previous(self) -> (state: Self)
        ensures
            state@ == (VaultSelectorView {
                list_state: ListState {
                    selected: Some(
                        match self.list_state.selected {
                            Some(row) => crate::explorer::state::row_before(row, 1),
                            None => usize::MAX,
                        },
                    ),
                    ..self.list_state
                },
                ..self@
            }),
    {
        let mut state = self;
        state.list_state.select_previous();
        state
    }
}

/// The text of a row of the vault selector: a diamond before the name of a
/// vault that Obsidian has open, two spaces before any other name.
pub open spec fn row_text(vault: VaultView) -> Seq<char> {
    (if vault.open {
        "\u{25c6} "@
    } else {
        "  "@
    }) + vault.name
}

impl VaultSelectorState {
    /// The texts of the rows of the vault selector.
    pub fn rows(&self) -> (rows: Vec<String>)
        ensures
            rows.len() == self.items.len(),
            forall|i: int| 0 <= i < rows.len() ==> (#[trigger] rows[i])@ == row_text(self.items[i]@),
    {
        let mut rows: Vec<String> = Vec::new();
        let mut i: usize = 0;
        while i < self.items.len()
            invariant
                i <= self.items.len(),
                rows.len() == i,
                forall|k: int| 0 <= k < i ==> (#[trigger] rows[k])@ == row_text(self.items[k]@),
            decreases self.items.len() - i,
        {
            let symbol = if self.items[i].open {
                "\u{25c6} "
            } else {
                "  "
            };
            rows.push(symbol.to_owned().concat(self.items[i].name.as_str()));
            i += 1;
        }
        rows
    }
}

} // verus!
