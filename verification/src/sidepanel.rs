use crate::explorer::state::{offset_for, row_after};
use crate::list_state::ListState;
use crate::obsidian::note::{Note, NoteView};
use vstd::prelude::*;
use vstd::string::StringExecFns;

verus! {

/// The state of the side panel: a flat list of notes.
#[derive(Debug, PartialEq)]
pub struct SidePanelState {
    pub title: String,
    pub selected_item_index: Option<usize>,
    pub items: Vec<Note>,
    pub open: bool,
    pub list_state: ListState,
}

/// What a sequence of notes stands for.
pub open spec fn note_views(notes: Seq<Note>) -> Seq<NoteView> {
    Seq::new(notes.len(), |i: int| notes[i]@)
}

/// What a [`SidePanelState`] stands for.
pub struct SidePanelView {
    pub title: Seq<char>,
    pub selected_item_index: Option<usize>,
    pub items: Seq<NoteView>,
    pub open: bool,
    pub list_state: ListState,
}

impl View for SidePanelState {
    type V = SidePanelView;

    open spec fn view(&self) -> SidePanelView {
        SidePanelView {
            title: self.title@,
            selected_item_index: self.selected_item_index,
            items: note_views(self.items@),
            open: self.open,
            list_state: self.list_state,
        }
    }
}

impl Clone for SidePanelState {
    fn clone(&self) -> (res: Self)
        ensures
            res@ == self@,
    {
        let mut items: Vec<Note> = Vec::new();
        let mut i: usize = 0;
        while i < self.items.len()
            invariant
                i <= self.items.len(),
                items.len() == i,
                forall|k: int| 0 <= k < i ==> (#[trigger] items[k])@ == self.items[k]@,
            decreases self.items.len() - i,
        {
            items.push(self.items[i].clone());
            i += 1;
        }
        assert(note_views(items@) =~= note_views(self.items@));
        SidePanelState {
            title: self.title.clone(),
            selected_item_index: self.selected_item_index,
            items,
            open: self.open,
            list_state: self.list_state,
        }
    }
}

impl SidePanelState {
    /// The side panel of the given notes: open, the cursor on the first row,
    /// no note chosen.
    pub fn new(title: &str, items: Vec<Note>) -> (state: Self)
        ensures
            state@ == (SidePanelView {
                title: title@,
                selected_item_index: None,
                items: note_views(items@),
                open: true,
                list_state: ListState { offset: 0, selected: Some(0) },
            }),
    {
        SidePanelState {
            items,
            title: title.to_owned(),
            selected_item_index: None,
            list_state: ListState::default().with_selected(Some(0)),
            open: true,
        }
    }

    /// The state with the panel open.
    pub fn open(self) -> (state: Self)
        ensures
            state@ == (SidePanelView { open: true, ..self@ }),
    {
        let mut state = self;
        state.open = true;
        state
    }

    /// The state with the panel closed.
    pub fn close(self) -> (state: Self)
        ensures
            state@ == (SidePanelView { open: false, ..self@ }),
    {
        let mut state = self;
        state.open = false;
        state
    }

    /// The state with the panel opened if it was closed and closed if it was
    /// open.
    pub fn toggle(self) -> (state: Self)
        ensures
            state@ == (SidePanelView { open: !self.open, ..self@ }),
    {
        let mut state = self;
        state.open = !state.open;
        state
    }

    /// The first row to show so that the row under the cursor stays in the
    /// middle of a window of the given height.
    pub fn calculate_offset(&self, window_height: usize) -> (offset: usize)
        requires
            self.items.len() >= 1,
        ensures
            offset == offset_for(
                match self.list_state.selected {
                    Some(row) => row as int,
                    None => 0,
                },
                self.items.len() as int,
                window_height as int,
            ),
    {
        let idx = match self.list_state.selected() {
            Some(row) => row,
            None => 0,
        };
        crate::explorer::state::calculate_offset(idx, self.items.len(), window_height)
    }

    /// Moves the first row shown so that the row under the cursor stays in the
    /// middle of a window of the given height.
    pub fn update_offset_mut(&mut self, window_height: usize)
        requires
            old(self).items.len() >= 1,
        ensures
            final(self)@ == (SidePanelView {
                list_state: ListState {
                    offset: offset_for(
                        match old(self).list_state.selected {
                            Some(row) => row as int,
                            None => 0,
                        },
                        old(self).items.len() as int,
                        window_height as int,
                    ) as usize,
                    ..old(self).list_state
                },
                ..old(self)@
            }),
    {
        let offset = self.calculate_offset(window_height);
        self.list_state.offset = offset;
    }

    /// The state with the note under the cursor chosen.
    pub fn select(&self) -> (state: Self)
        ensures
            state@ == (SidePanelView { selected_item_index: self.list_state.selected, ..self@ }),
    {
        let mut state = self.clone();
        state.selected_item_index = self.list_state.selected();
        state
    }

    /// The row of the chosen note, if one is chosen.
    pub fn selected(&self) -> (selected: Option<usize>)
        ensures
            selected == self.selected_item_index,
    {
        self.selected_item_index
    }

    /// Whether the panel is open.
    pub fn is_open(&self) -> (open: bool)
        ensures
            open == self.open,
    {
        self.open
    }

    /// Moves the cursor one row down; it stops at the last row.
    pub fn next(self) -> (state: Self)
        requires
            self.list_state.selected is Some ==> self.items.len() >= 1,
        ensures
            state@ == (SidePanelView {
                list_state: match self.list_state.selected {
                    Some(row) => ListState {
                        selected: Some(row_after(row, 1, self.items.len())),
                        ..self.list_state
                    },
                    None => ListState { selected: None, offset: 0 },
                },
                ..self@
            }),
    {
        let mut state = self;
        let index = match state.list_state.selected() {
            Some(row) => {
                let last = state.items.len() - 1;
                Some(if row >= last {
                    last
                } else {
                    row + 1
                })
            },
            None => None,
        };
        state.list_state.select(index);
        state
    }

    /// Moves the cursor one row up; it stops at the first row. A cursor that
    /// stood on no row stands on the last row.
    pub fn previous(self) -> (state: Self)
        ensures
            state@ == (SidePanelView {
                list_state: ListState {
                    selected: Some(
                        match self.list_state.selected {
                            Some(row) => crate::explorer::state::row_before(row, 1),
                            None => usize::MAX,
                        },
                    ),
                    ..self.list_state
                },
                ..self@
            }),
    {
        let mut state = self;
        state.list_state.select_previous();
        state
    }
}

/// The text of a row of the side panel: in the open panel a diamond before the
/// name of the chosen note and two spaces before any other name; in the closed
/// panel a diamond for the chosen note and a small circle for any other.
pub open spec fn row_text(name: Seq<char>, chosen: bool, open: bool) -> Seq<char> {
    if chosen {
        if open {
            "\u{25c6} "@ + name
        } else {
            "\u{25c6}"@
        }
    } else if open {
        "  "@ + name
    } else {
        "\u{25e6}"@
    }
}

impl SidePanelState {
    /// The texts of the rows of the side panel.
    pub fn rows(&self) -> (rows: Vec<String>)
        ensures
            rows.len() == self.items.len(),
            forall|i: int|
                0 <= i < rows.len() ==> (#[trigger] rows[i])@ == row_text(
                    self.items[i].name@,
                    self.selected_item_index == Some(i as usize),
                    self.open,
                ),
    {
        let mut rows: Vec<String> = Vec::new();
        let mut i: usize = 0;
        while i < self.items.len()
            invariant
                i <= self.items.len(),
                rows.len() == i,
                forall|k: int|
                    0 <= k < i ==> (#[trigger] rows[k])@ == row_text(
                        self.items[k].name@,
                        self.selected_item_index == Some(k as usize),
                        self.open,
                    ),
            decreases self.items.len() - i,
        {
            let chosen = match self.selected_item_index {
                Some(selected) => selected == i,
                None => false,
            };
            let row = if chosen {
                if self.open {
                    "\u{25c6} ".to_owned().concat(self.items[i].name.as_str())
                } else {
                    "\u{25c6}".to_owned()
                }
            } else if self.open {
                "  ".to_owned().concat(self.items[i].name.as_str())
            } else {
                "\u{25e6}".to_owned()
            };
            rows.push(row);
            i += 1;
        }
        rows
    }
}

} // verus!
