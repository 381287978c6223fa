use crate::list_state::{scrolled_up, ListState, ScrollbarState};
use crate::help_modal::scrolled_down_in;
use crate::obsidian::vault::Vault;
use crate::text::{count_lines, line_count};
use crate::vault_selector::{vault_views, VaultSelectorState, VaultSelectorView};
use vstd::prelude::*;

verus! {

/// The state of the modal that lets the user choose a vault.
#[derive(Debug, PartialEq)]
pub struct VaultSelectorModalState {
    pub vault_selector_state: VaultSelectorState,
    pub visible: bool,
}

/// What a [`VaultSelectorModalState`] stands for.
pub struct VaultSelectorModalView {
    pub vault_selector_state: VaultSelectorView,
    pub visible: bool,
}

impl View for VaultSelectorModalState {
    type V = VaultSelectorModalView;

    open spec fn view(&self) -> VaultSelectorModalView {
        VaultSelectorModalView {
            vault_selector_state: self.vault_selector_state@,
            visible: self.visible,
        }
    }
}

impl Clone for VaultSelectorModalState {
    fn clone(&self) -> (res: Self)
        ensures
            res@ == self@,
    {
        VaultSelectorModalState {
            vault_selector_state: self.vault_selector_state.clone(),
            visible: self.visible,
        }
    }
}

impl VaultSelectorModalState {
    /// The modal of the given vaults, hidden.
    pub fn new(items: Vec<Vault>) -> (state: Self)
        ensures
            state@ == (VaultSelectorModalView {
                vault_selector_state: VaultSelectorView {
                    selected_item_index: None,
                    items: vault_views(items@),
                    list_state: ListState { offset: 0, selected: Some(0) },
                },
                visible: false,
            }),
    {
        Self { vault_selector_state: VaultSelectorState::new(items), visible: false }
    }

    /// The row of the chosen vault, if one is chosen.
    pub fn selected(&self) -> (selected: Option<usize>)
        ensures
            selected == self.vault_selector_state.selected_item_index,
    {
        self.vault_selector_state.selected()
    }

    /// The state with the vault under the cursor chosen.
    pub fn select(&self) -> (state: Self)
        ensures
            state@ == (VaultSelectorModalView {
                vault_selector_state: VaultSelectorView {
                    selected_item_index: self.vault_selector_state.list_state.selected,
                    ..self.vault_selector_state@
                },
                ..self@
            }),
    {
        Self { vault_selector_state: self.vault_selector_state.select(), visible: self.visible }
    }

    /// The vault at a row, if there is one.
    pub fn get_item(&self, index: usize) -> (item: Option<&Vault>)
        ensures
            index < self.vault_selector_state.items.len() ==> item == Some(
                &self.vault_selector_state.items[index as int],
            ),
            index >= self.vault_selector_state.items.len() ==> item is None,
    {
        self.vault_selector_state.get_item(index)
    }

    /// Moves the cursor one row down; it stops at the last row.
    pub fn next(&self) -> (state: Self)
        requires
            self.vault_selector_state.list_state.selected is Some
                ==> self.vault_selector_state.items.len() >= 1,
        ensures
            state@.visible == self.visible,
            state@.vault_selector_state == (VaultSelectorView {
                list_state: match self.vault_selector_state.list_state.selected {
                    Some(row) => ListState {
                        selected: Some(
                            crate::explorer::state::row_after(
                                row,
                                1,
                                self.vault_selector_state.items.len(),
                            ),
                        ),
                        ..self.vault_selector_state.list_state
                    },
                    None => ListState { selected: None, offset: 0 },
                },
                ..self.vault_selector_state@
            }),
    {
        let copy = self.vault_selector_state.clone();
        assert(copy@.items.len() == copy.items.len());
        assert(self.vault_selector_state@.items.len() == self.vault_selector_state.items.len());
        Self { vault_selector_state: copy.next(), visible: self.visible }
    }

    /// Moves the cursor one row up; it stops at the first row.
    pub fn previous(&self) -> (state: Self)
        ensures
            state@.visible == self.visible,
            state@.vault_selector_state == (VaultSelectorView {
                list_state: ListState {
                    selected: Some(
                        match self.vault_selector_state.list_state.selected {
                            Some(row) => crate::explorer::state::row_before(row, 1),
                            None => usize::MAX,
                        },
                    ),
                    ..self.vault_selector_state.list_state
                },
                ..self.vault_selector_state@
            }),
    {
        Self {
            vault_selector_state: self.vault_selector_state.clone().previous(),
            visible: self.visible,
        }
    }

    /// The modal hidden.
    pub fn close(&self) -> (state: Self)
        ensures
            state@ == (VaultSelectorModalView { visible: false, ..self@ }),
    {
        let mut state = self.clone();
        state.visible = false;
        state
    }

    /// The modal shown if it was hidden and hidden if it was shown.
    pub fn toggle_visibility(&self) -> (state: Self)
        ensures
            state@ == (VaultSelectorModalView { visible: !self.visible, ..self@ }),
    {
        let mut state = self.clone();
        state.visible = !self.visible;
        state
    }
}

/// The title of a modal: a text on the left and, where there is one, a text on
/// the right.
#[derive(Debug, PartialEq)]
pub struct ModalTitle {
    pub left: String,
    pub right: Option<String>,
}

/// What a [`ModalTitle`] stands for.
pub struct ModalTitleView {
    pub left: Seq<char>,
    pub right: Option<Seq<char>>,
}

impl View for ModalTitle {
    type V = ModalTitleView;

    open spec fn view(&self) -> ModalTitleView {
        ModalTitleView {
            left: self.left@,
            right: match self.right {
                Some(right) => Some(right@),
                None => None,
            },
        }
    }
}

impl ModalTitle {
    /// A title.
    pub fn new(title_left: &str, title_right: Option<&str>) -> (title: Self)
        ensures
            title@ == (ModalTitleView {
                left: title_left@,
                right: match title_right {
                    Some(right) => Some(right@),
                    None => None,
                },
            }),
    {
        Self {
            left: title_left.to_owned(),
            right: match title_right {
                Some(right) => Some(right.to_owned()),
                None => None,
            },
        }
    }
}

/// The state of a modal that shows a text.
#[derive(Debug, PartialEq)]
pub struct ModalState {
    pub scrollbar_state: ScrollbarState,
    pub scrollbar_position: usize,
    pub viewport_height: usize,
    pub text: String,
    pub title: ModalTitle,
    pub is_open: bool,
}

/// What a [`ModalState`] stands for.
pub struct ModalView {
    pub scrollbar_state: ScrollbarState,
    pub scrollbar_position: usize,
    pub viewport_height: usize,
    pub text: Seq<char>,
    pub title: ModalTitleView,
    pub is_open: bool,
}

impl View for ModalState {
    type V = ModalView;

    open spec fn view(&self) -> ModalView {
        ModalView {
            scrollbar_state: self.scrollbar_state,
            scrollbar_position: self.scrollbar_position,
            viewport_height: self.viewport_height,
            text: self.text@,
            title: self.title@,
            is_open: self.is_open,
        }
    }
}

impl ModalState {
    /// The modal with the given title and text: closed, at the top, with a
    /// scrollbar for the lines of the text.
    pub fn new(title: ModalTitle, text: &str) -> (state: Self)
        ensures
            state@ == (ModalView {
                scrollbar_state: ScrollbarState {
                    content_length: line_count(text@) as usize,
                    position: 0,
                },
                scrollbar_position: 0,
                viewport_height: 0,
                text: text@,
                title: title@,
                is_open: false,
            }),
    {
        Self {
            title,
            text: text.to_owned(),
            scrollbar_state: ScrollbarState::new(count_lines(text)),
            scrollbar_position: 0,
            viewport_height: 0,
            is_open: false,
        }
    }

    /// The modal `amount` rows up; it stops at the top.
    pub fn scroll_up(self, amount: usize) -> (state: Self)
        ensures
            state@ == (ModalView {
                scrollbar_position: scrolled_up(self.scrollbar_position, amount),
                scrollbar_state: ScrollbarState {
                    position: scrolled_up(self.scrollbar_position, amount),
                    ..self.scrollbar_state
                },
                ..self@
            }),
    {
        let scrollbar_position = self.scrollbar_position.saturating_sub(amount);
        let scrollbar_state = self.scrollbar_state.position(scrollbar_position);
        let mut state = self;
        state.scrollbar_state = scrollbar_state;
        state.scrollbar_position = scrollbar_position;
        state
    }

    /// The modal `amount` rows down; it stops at the number of lines of the
    /// text.
    pub fn scroll_down(self, amount: usize) -> (state: Self)
        ensures
            state@ == (ModalView {
                scrollbar_position: scrolled_down_in(self.scrollbar_position, amount, self.text@),
                scrollbar_state: ScrollbarState {
                    position: scrolled_down_in(self.scrollbar_position, amount, self.text@),
                    ..self.scrollbar_state
                },
                ..self@
            }),
    {
        let lines = count_lines(self.text.as_str());
        let moved = self.scrollbar_position.saturating_add(amount);
        let scrollbar_position = if moved <= lines {
            moved
        } else {
            lines
        };
        let scrollbar_state = self.scrollbar_state.position(scrollbar_position);
        let mut state = self;
        state.scrollbar_state = scrollbar_state;
        state.scrollbar_position = scrollbar_position;
        state
    }

    /// The modal at the top again, with an empty scrollbar.
    pub fn reset_scrollbar(self) -> (state: Self)
        ensures
            state@ == (ModalView {
                scrollbar_state: ScrollbarState { content_length: 0, position: 0 },
                scrollbar_position: 0,
                ..self@
            }),
    {
        let mut state = self;
        state.scrollbar_state = ScrollbarState::default();
        state.scrollbar_position = 0;
        state
    }
}

} // verus!
