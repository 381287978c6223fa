use crate::text::{decimal, decimal_text};
use vstd::prelude::*;
use vstd::string::StringExecFns;

verus! {

/// What the status bar shows: the name of the active pane and the counts of
/// the words and characters of the note.
#[derive(Debug, PartialEq)]
pub struct StatusBarState {
    pub active_component_name: String,
    pub word_count: usize,
    pub char_count: usize,
}

/// What a [`StatusBarState`] stands for.
pub struct StatusBarView {
    pub active_component_name: Seq<char>,
    pub word_count: usize,
    pub char_count: usize,
}

impl View for StatusBarState {
    type V = StatusBarView;

    open spec fn view(&self) -> StatusBarView {
        StatusBarView {
            active_component_name: self.active_component_name@,
            word_count: self.word_count,
            char_count: self.char_count,
        }
    }
}

/// A count with its noun, the noun in the plural but for the count of one:
/// `1 word`, `0 words`, `12 chars`.
pub open spec fn counted(count: usize, noun: Seq<char>) -> Seq<char> {
    decimal(count as nat) + " "@ + noun + (if count == 1 {
        ""@
    } else {
        "s"@
    })
}

/// Writes a count with its noun.
pub fn count_label(count: usize, noun: &str) -> (label: String)
    ensures
        label@ == counted(count, noun@),
{
    let label = decimal_text(count as u64).concat(" ").concat(noun);
    if count == 1 {
        label.concat("")
    } else {
        label.concat("s")
    }
}

impl StatusBarState {
    /// The state of the status bar.
    pub fn new(active_component_name: &str, word_count: usize, char_count: usize) -> (state: Self)
        ensures
            state@ == (StatusBarView {
                active_component_name: active_component_name@,
                word_count,
                char_count,
            }),
    {
        Self { active_component_name: active_component_name.to_owned(), word_count, char_count }
    }

    /// The word count as the status bar shows it.
    pub fn word_label(&self) -> (label: String)
        ensures
            label@ == counted(self.word_count, "word"@),
    {
        count_label(self.word_count, "word")
    }

    /// The character count as the status bar shows it.
    pub fn char_label(&self) -> (label: String)
        ensures
            label@ == counted(self.char_count, "char"@),
    {
        count_label(self.char_count, "char")
    }
}

} // verus!
