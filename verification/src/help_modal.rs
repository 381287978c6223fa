use crate::list_state::{scrolled_down, scrolled_up, ScrollbarState};
use crate::text::{count_lines, line_count};
use vstd::prelude::*;

verus! {

/// The state of the help modal.
#[derive(Debug, PartialEq)]
pub struct HelpModalState {
    pub scrollbar_state: ScrollbarState,
    pub scrollbar_position: usize,
    pub viewport_height: usize,
    pub text: String,
    pub visible: bool,
}

/// What a [`HelpModalState`] stands for.
pub struct HelpModalView {
    pub scrollbar_state: ScrollbarState,
    pub scrollbar_position: usize,
    pub viewport_height: usize,
    pub text: Seq<char>,
    pub visible: bool,
}

impl View for HelpModalState {
    type V = HelpModalView;

    open spec fn view(&self) -> HelpModalView {
        HelpModalView {
            scrollbar_state: self.scrollbar_state,
            scrollbar_position: self.scrollbar_position,
            viewport_height: self.viewport_height,
            text: self.text@,
            visible: self.visible,
        }
    }
}

/// The position `amount` rows down in a text: it stops at the number of lines
/// of the text.
pub open spec fn scrolled_down_in(position: usize, amount: usize, text: Seq<char>) -> usize {
    if scrolled_down(position, amount) <= line_count(text) {
        scrolled_down(position, amount)
    } else {
        line_count(text) as usize
    }
}

impl HelpModalState {
    /// The help modal with the given text: hidden, at the top, with a
    /// scrollbar for the lines of the text.
    pub fn new(text: &str) -> (state: Self)
        ensures
            state@ == (HelpModalView {
                scrollbar_state: ScrollbarState {
                    content_length: line_count(text@) as usize,
                    position: 0,
                },
                scrollbar_position: 0,
                viewport_height: 0,
                text: text@,
                visible: false,
            }),
    {
        Self {
            text: text.to_owned(),
            scrollbar_state: ScrollbarState::new(count_lines(text)),
            scrollbar_position: 0,
            viewport_height: 0,
            visible: false,
        }
    }

    /// The modal `amount` rows up; it stops at the top.
    pub fn scroll_up(self, amount: usize) -> (state: Self)
        ensures
            state@ == (HelpModalView {
                scrollbar_position: scrolled_up(self.scrollbar_position, amount),
                scrollbar_state: ScrollbarState {
                    position: scrolled_up(self.scrollbar_position, amount),
                    ..self.scrollbar_state
                },
                ..self@
            }),
    {
        let scrollbar_position = self.scrollbar_position.saturating_sub(amount);
        let scrollbar_state = self.scrollbar_state.position(scrollbar_position);
        let mut state = self;
        state.scrollbar_state = scrollbar_state;
        state.scrollbar_position = scrollbar_position;
        state
    }

    /// The modal `amount` rows down; it stops at the number of lines of the
    /// text.
    pub fn scroll_down(self, amount: usize) -> (state: Self)
        ensures
            state@ == (HelpModalView {
                scrollbar_position: scrolled_down_in(self.scrollbar_position, amount, self.text@),
                scrollbar_state: ScrollbarState {
                    position: scrolled_down_in(self.scrollbar_position, amount, self.text@),
                    ..self.scrollbar_state
                },
                ..self@
            }),
    {
        let lines = count_lines(self.text.as_str());
        let moved = self.scrollbar_position.saturating_add(amount);
        let scrollbar_position = if moved <= lines {
            moved
        } else {
            lines
        };
        let scrollbar_state = self.scrollbar_state.position(scrollbar_position);
        let mut state = self;
        state.scrollbar_state = scrollbar_state;
        state.scrollbar_position = scrollbar_position;
        state
    }

    /// The modal at the top again, with an empty scrollbar.
    pub fn reset_scrollbar(self) -> (state: Self)
        ensures
            state@ == (HelpModalView {
                scrollbar_state: ScrollbarState { content_length: 0, position: 0 },
                scrollbar_position: 0,
                ..self@
            }),
    {
        let mut state = self;
        state.scrollbar_state = ScrollbarState::default();
        state.scrollbar_position = 0;
        state
    }

    /// The modal hidden.
    pub fn close(self) -> (state: Self)
        ensures
            state@ == (HelpModalView { visible: false, ..self@ }),
    {
        let mut state = self;
        state.visible = false;
        state
    }

    /// The modal shown if it was hidden and hidden if it was shown.
    pub fn toggle_visibility(self) -> (state: Self)
        ensures
            state@ == (HelpModalView { visible: !self.visible, ..self@ }),
    {
        let mut state = self;
        state.visible = !state.visible;
        state
    }
}

} // verus!
