use vstd::prelude::*;

verus! {

/// Represents a single note (Markdown file) within a vault.
#[derive(Debug, PartialEq)]
pub struct Note {
    /// The base filename without `.md` extension.
    pub name: String,
    /// Filesystem path to the `.md` file.
    pub path: String,
}

/// What a [`Note`] stands for: its name and its path, as text.
pub struct NoteView {
    pub name: Seq<char>,
    pub path: Seq<char>,
}

impl View for Note {
    type V = NoteView;

    open spec fn view(&self) -> NoteView {
        NoteView { name: self.name@, path: self.path@ }
    }
}

impl Clone for Note {
    fn clone(&self) -> (res: Self)
        ensures
            res@ == self@,
    {
        Note { name: self.name.clone(), path: self.path.clone() }
    }
}

impl Default for Note {
    fn default() -> (note: Self)
        ensures
            note@ == (NoteView { name: Seq::empty(), path: Seq::empty() }),
    {
        Note { name: String::new(), path: String::new() }
    }
}

} // verus!
