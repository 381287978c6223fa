//! The positions that the lists and scrollbars of the interface keep between
//! two frames, as plain values.
use vstd::prelude::*;

verus! {

/// Where a list stands: the row that is selected and the first row shown.
#[derive(Debug, Clone, Copy, PartialEq, Eq, Structural)]
pub struct ListState {
    /// The first row of the list that is shown.
    pub offset: usize,
    /// The selected row, if any.
    pub selected: Option<usize>,
}

impl Default for ListState {
    fn default() -> (state: Self)
        ensures
            state == (ListState { offset: 0, selected: None }),
    {
        ListState { offset: 0, selected: None }
    }
}

impl ListState {
    /// The state with the given row selected.
    pub fn with_selected(self, selected: Option<usize>) -> (state: Self)
        ensures
            state == (ListState { selected, ..self }),
    {
        ListState { offset: self.offset, selected }
    }

    /// The selected row, if any.
    pub fn selected(&self) -> (selected: Option<usize>)
        ensures
            selected == self.selected,
    {
        self.selected
    }

    /// The first row shown.
    pub fn offset(&self) -> (offset: usize)
        ensures
            offset == self.offset,
    {
        self.offset
    }

    /// Selects a row, or none; with no row selected the list shows its first
    /// rows again.
    pub fn select(&mut self, index: Option<usize>)
        ensures
            final(self).selected == index,
            final(self).offset == (if index is None {
                0
            } else {
                old(self).offset
            }),
    {
        self.selected = index;
        if index.is_none() {
            self.offset = 0;
        }
    }

    /// Selects the row before the selected one, or the last row where none is
    /// selected.
    pub fn select_previous(&mut self)
        ensures
            final(self).offset == old(self).offset,
            final(self).selected == Some(
                match old(self).selected {
                    Some(row) => if row >= 1 {
                        (row - 1) as usize
                    } else {
                        0
                    },
                    None => usize::MAX,
                },
            ),
    {
        let previous = match self.selected {
            Some(row) => if row >= 1 {
                row - 1
            } else {
                0
            },
            None => usize::MAX,
        };
        self.select(Some(previous));
    }
}

/// Where a scrollbar stands.
#[derive(Debug, Clone, Copy, PartialEq, Eq, Structural)]
pub struct ScrollbarState {
    /// The number of rows of the content.
    pub content_length: usize,
    /// The row at which the thumb stands.
    pub position: usize,
}

impl Default for ScrollbarState {
    fn default() -> (state: Self)
        ensures
            state == (ScrollbarState { content_length: 0, position: 0 }),
    {
        ScrollbarState { content_length: 0, position: 0 }
    }
}

impl ScrollbarState {
    /// A scrollbar for content of the given length, at the top.
    pub fn new(content_length: usize) -> (state: Self)
        ensures
            state == (ScrollbarState { content_length, position: 0 }),
    {
        ScrollbarState { content_length, position: 0 }
    }

    /// The scrollbar moved to a position.
    pub fn position(self, position: usize) -> (state: Self)
        ensures
            state == (ScrollbarState { position, ..self }),
    {
        ScrollbarState { content_length: self.content_length, position }
    }

    /// The scrollbar with another content length.
    pub fn content_length(self, content_length: usize) -> (state: Self)
        ensures
            state == (ScrollbarState { content_length, ..self }),
    {
        ScrollbarState { content_length, position: self.position }
    }
}

/// A scrollbar together with the row at which the view starts.
#[derive(Debug, Clone, Copy, PartialEq, Eq, Structural)]
pub struct Scrollbar {
    pub state: ScrollbarState,
    pub position: usize,
}

impl Default for Scrollbar {
    fn default() -> (scrollbar: Self)
        ensures
            scrollbar == (Scrollbar {
                state: ScrollbarState { content_length: 0, position: 0 },
                position: 0,
            }),
    {
        Scrollbar { state: ScrollbarState::default(), position: 0 }
    }
}

/// The position `amount` rows up: it stops at the first row.
pub open spec fn scrolled_up(position: usize, amount: usize) -> usize {
    if position >= amount {
        (position - amount) as usize
    } else {
        0
    }
}

/// The position `amount` rows down: it stops at the largest position there is.
pub open spec fn scrolled_down(position: usize, amount: usize) -> usize {
    if position + amount <= usize::MAX {
        (position + amount) as usize
    } else {
        usize::MAX
    }
}

impl Scrollbar {
    /// The scrollbar `amount` rows up.
    pub fn scroll_up(self, amount: usize) -> (scrollbar: Self)
        ensures
            scrollbar.position == scrolled_up(self.position, amount),
            scrollbar.state == (ScrollbarState { position: scrollbar.position, ..self.state }),
    {
        let position = self.position.saturating_sub(amount);
        Scrollbar { state: self.state.position(position), position }
    }

    /// The scrollbar `amount` rows down.
    pub fn scroll_down(self, amount: usize) -> (scrollbar: Self)
        ensures
            scrollbar.position == scrolled_down(self.position, amount),
            scrollbar.state == (ScrollbarState { position: scrollbar.position, ..self.state }),
    {
        let position = self.position.saturating_add(amount);
        Scrollbar { state: self.state.position(position), position }
    }
}

} // verus!
