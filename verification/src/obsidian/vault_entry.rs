use crate::name_map::{order_names, Order};
use crate::obsidian::note::{Note, NoteView};
use vstd::prelude::*;
use vstd::string::StrSliceExecFns;

verus! {

/// An entry of a vault: a note, or a directory with the entries below it.
#[derive(Debug, PartialEq)]
pub enum VaultEntry {
    File(Note),
    Directory { name: String, path: String, entries: Vec<VaultEntry> },
}

/// What a [`VaultEntry`] stands for.
pub enum EntryView {
    File(NoteView),
    Directory { name: Seq<char>, path: Seq<char>, entries: Seq<EntryView> },
}

/// What a vault entry stands for.
pub open spec fn entry_view(entry: VaultEntry) -> EntryView
    decreases entry,
{
    match entry {
        VaultEntry::File(note) => EntryView::File(note@),
        VaultEntry::Directory { name, path, entries } => EntryView::Directory {
            name: name@,
            path: path@,
            entries: Seq::new(
                entries.len() as nat,
                |i: int|
                    if 0 <= i < entries.len() {
                        entry_view(entries[i])
                    } else {
                        arbitrary()
                    },
            ),
        },
    }
}

impl View for VaultEntry {
    type V = EntryView;

    open spec fn view(&self) -> EntryView {
        entry_view(*self)
    }
}

/// What a sequence of vault entries stands for.
pub open spec fn entry_views(entries: Seq<VaultEntry>) -> Seq<EntryView> {
    Seq::new(entries.len(), |i: int| entries[i]@)
}

/// The entries of a directory's view are the views of its entries.
pub proof fn lemma_directory_view(entry: VaultEntry)
    ensures
        entry matches VaultEntry::Directory { name, path, entries } ==> entry@ == (
        EntryView::Directory { name: name@, path: path@, entries: entry_views(entries@) }),
{
    match entry {
        VaultEntry::Directory { name, path, entries } => {
            assert(entry@->entries =~= entry_views(entries@));
        },
        _ => {},
    }
}

impl EntryView {
    /// The name of the entry.
    pub open spec fn name(self) -> Seq<char> {
        match self {
            EntryView::File(note) => note.name,
            EntryView::Directory { name, .. } => name,
        }
    }

    /// Whether a note with the given path is the entry or stands below it.
    pub open spec fn holds_note(self, path: Seq<char>) -> bool
        decreases self,
    {
        match self {
            EntryView::File(note) => note.path == path,
            EntryView::Directory { entries, .. } => exists|i: int|
                0 <= i < entries.len() && (#[trigger] entries[i]).holds_note(path),
        }
    }
}

/// `Path::starts_with` of std on two paths given as text: whether the first
/// path begins with the whole components of the second. What counts as a
/// component depends on the platform, so nothing is stated of the result.
#[verifier::external_body]
fn path_starts_with(path: &str, base: &str) -> bool {
    std::path::Path::new(path).starts_with(std::path::Path::new(base))
}

/// Finding a note by its path.
pub trait FindNote {
    /// Whether a note with the given path is among what `self` holds.
    spec fn holds_note(&self, path: Seq<char>) -> bool;

    /// Whether a search for the path in `self` can end with `found`.
    spec fn finds(&self, path: Seq<char>, found: Option<NoteView>) -> bool;

    /// The note with the path, looked for in the directories whose path it starts with.
    fn find_note<'a>(&'a self, path: &str) -> (res: Option<&'a Note>)
        ensures
            res matches Some(note) ==> note.path@ == path@ && self.holds_note(path@),
            self.finds(path@, found_view(res)),
    ;
}

impl VaultEntry {
    /// The name of the entry.
    pub fn name(&self) -> (name: &str)
        ensures
            name@ == self@.name(),
    {
        match self {
            VaultEntry::Directory { name, .. } => name.as_str(),
            VaultEntry::File(note) => note.name.as_str(),
        }
    }

    /// Whether the entry is hidden: its name starts with a dot.
    pub open spec fn is_hidden(self) -> bool {
        self@.name().len() > 0 && self@.name()[0] == '.'
    }

    /// The note with the path: the entry itself, or a note below this directory.
    pub fn search<'a>(&'a self, path: &str) -> (res: Option<&'a Note>)
        ensures
            res matches Some(note) ==> note.path@ == path@ && self@.holds_note(path@),
            finds(self@, path@, found_view(res)),
        decreases self,
    {
        proof {
            lemma_directory_view(*self);
        }
        match self {
            VaultEntry::File(note) => {
                if order_names(note.path.as_str(), path) == Order::Same {
                    Some(note)
                } else {
                    None
                }
            },
            VaultEntry::Directory { entries, path: dir_path, .. } => {
                if path_starts_with(path, dir_path.as_str()) {
                    let mut i: usize = 0;
                    while i < entries.len()
                        invariant
                            i <= entries.len(),
                            *self matches VaultEntry::Directory { entries: held, .. } && held
                                == *entries,
                            self@ matches EntryView::Directory { entries: views, .. } && views
                                == entry_views(entries@),
                            finds_none(entry_views(entries@), path@, i as int),
                        decreases entries.len() - i,
                    {
                        match entries[i].search(path) {
                            Some(note) => {
                                assert(entry_views(entries@)[i as int].holds_note(path@));
                                assert(finds_at(entry_views(entries@), path@, Some(note@), i as int));
                                return Some(note);
                            },
                            None => {},
                        }
                        i += 1;
                    }
                }
                None
            },
        }
    }
}

/// The note with the path among the entries: what the first entry gives in
/// which a search finds one.
pub fn search_entries<'a>(entries: &'a Vec<VaultEntry>, path: &str) -> (res: Option<&'a Note>)
    ensures
        res matches Some(note) ==> note.path@ == path@ && holds_note(entries@, path@),
        finds_among(entry_views(entries@), path@, found_view(res)),
{
    let mut i: usize = 0;
    while i < entries.len()
        invariant
            i <= entries.len(),
            finds_none(entry_views(entries@), path@, i as int),
        decreases entries.len() - i,
    {
        if let Some(note) = entries[i].search(path) {
            assert(finds_at(entry_views(entries@), path@, Some(note@), i as int));
            return Some(note);
        }
        i += 1;
    }
    None
}

impl FindNote for VaultEntry {
    /// Whether the entry is a note with the path or has one below it.
    open spec fn holds_note(&self, path: Seq<char>) -> bool {
        self@.holds_note(path)
    }

    /// Whether a search in the entry can end with `found`.
    open spec fn finds(&self, path: Seq<char>, found: Option<NoteView>) -> bool {
        finds(self@, path, found)
    }

    fn find_note<'a>(&'a self, path: &str) -> (res: Option<&'a Note>) {
        self.search(path)
    }
}

impl FindNote for Vec<VaultEntry> {
    open spec fn holds_note(&self, path: Seq<char>) -> bool {
        holds_note(self@, path)
    }

    fn find_note<'a>(&'a self, path: &str) -> (res: Option<&'a Note>) {
        search_entries(self, path)
    }

    open spec fn finds(&self, path: Seq<char>, found: Option<NoteView>) -> bool {
        finds_among(entry_views(self@), path, found)
    }
}

impl Clone for VaultEntry {
    fn clone(&self) -> (res: Self)
        ensures
            res@ == self@,
        decreases self,
    {
        proof {
            lemma_directory_view(*self);
        }
        let res = match self {
            VaultEntry::File(note) => VaultEntry::File(note.clone()),
            VaultEntry::Directory { name, path, entries } => {
                let mut copy: Vec<VaultEntry> = Vec::new();
                let mut i: usize = 0;
                while i < entries.len()
                    invariant
                        i <= entries.len(),
                        copy.len() == i,
                        forall|k: int| 0 <= k < i ==> (#[trigger] copy[k])@ == entries[k]@,
                        *self matches VaultEntry::Directory { entries: held, .. } && held
                            == *entries,
                    decreases entries.len() - i,
                {
                    copy.push(entries[i].clone());
                    i += 1;
                }
                assert(entry_views(copy@) =~= entry_views(entries@));
                VaultEntry::Directory { name: name.clone(), path: path.clone(), entries: copy }
            },
        };
        proof {
            lemma_directory_view(res);
        }
        res
    }
}

/// The entries that are not hidden, in their order.
pub open spec fn visible(entries: Seq<VaultEntry>) -> Seq<VaultEntry> {
    entries.filter(|entry: VaultEntry| !entry.is_hidden())
}

/// Leaves out the entries whose name starts with a dot.
pub fn visible_entries(entries: Vec<VaultEntry>) -> (res: Vec<VaultEntry>)
    ensures
        res@ == visible(entries@),
{
    let ghost all = entries@;
    let ghost keep = |entry: VaultEntry| !entry.is_hidden();
    let mut res: Vec<VaultEntry> = Vec::new();
    for entry in iter: entries
        invariant
            iter.seq() == all,
            keep == (|entry: VaultEntry| !entry.is_hidden()),
            res@ == all.take(iter.index() as int).filter(keep),
    {
        proof {
            assert(all.take(iter.index() + 1) =~= all.take(iter.index() as int).push(entry));
            all.take(iter.index() as int).lemma_filter_push(entry, keep);
        }
        let name = entry.name();
        let hidden = name.unicode_len() > 0 && name.get_char(0) == '.';
        if !hidden {
            res.push(entry);
        }
    }
    assert(all.take(all.len() as int) =~= all);
    res
}

/// What a search has found, as the view of the note.
pub open spec fn found_view(found: Option<&Note>) -> Option<NoteView> {
    match found {
        Some(note) => Some(note@),
        None => None,
    }
}

/// Whether a search for the path in the entry can end with `found`. A file is
/// found exactly when it has the path. A directory is passed over, which finds
/// nothing, or its entries are searched in their order.
pub open spec fn finds(entry: EntryView, path: Seq<char>, found: Option<NoteView>) -> bool
    decreases entry,
{
    match entry {
        EntryView::File(note) => found == if note.path == path {
            Some(note)
        } else {
            None
        },
        EntryView::Directory { entries, .. } => found is None || exists|k: int|
            0 <= k < entries.len() && finds(#[trigger] entries[k], path, found) && forall|i: int|
                0 <= i < k ==> finds(#[trigger] entries[i], path, None),
    }
}

/// Whether a search can find nothing in each of the first `count` entries.
pub open spec fn finds_none(entries: Seq<EntryView>, path: Seq<char>, count: int) -> bool {
    forall|i: int| 0 <= i < count && i < entries.len() ==> finds(#[trigger] entries[i], path, None)
}

/// Whether a search can end with `found` in the entry at `k`, having found
/// nothing in the entries before it.
pub open spec fn finds_at(
    entries: Seq<EntryView>,
    path: Seq<char>,
    found: Option<NoteView>,
    k: int,
) -> bool {
    0 <= k < entries.len() && finds(entries[k], path, found) && finds_none(entries, path, k)
}

/// Whether a search for the path among the entries, taken in their order, can
/// end with `found`: with what the first entry gives in which something is
/// found, and with nothing where nothing is found in any.
pub open spec fn finds_among(
    entries: Seq<EntryView>,
    path: Seq<char>,
    found: Option<NoteView>,
) -> bool {
    match found {
        Some(_) => exists|k: int| finds_at(entries, path, found, k),
        None => finds_none(entries, path, entries.len() as int),
    }
}

/// Whether a note with the given path is one of the entries or stands below one.
pub open spec fn holds_note(entries: Seq<VaultEntry>, path: Seq<char>) -> bool {
    exists|i: int| 0 <= i < entries.len() && (#[trigger] entries[i])@.holds_note(path)
}

/// A note that a search can find has the path and is held by the entry.
pub proof fn lemma_found_is_held(entry: EntryView, path: Seq<char>, note: NoteView)
    requires
        finds(entry, path, Some(note)),
    ensures
        note.path == path,
        entry.holds_note(path),
    decreases entry,
{
    match entry {
        EntryView::File(_) => {},
        EntryView::Directory { entries, .. } => {
            let k = choose|k: int|
                0 <= k < entries.len() && finds(#[trigger] entries[k], path, Some(note)) && forall|
                    i: int,
                | 0 <= i < k ==> finds(#[trigger] entries[i], path, None);
            lemma_found_is_held(entries[k], path, note);
        },
    }
}

/// A search among entries of which one is itself a note with the path finds a
/// note, whichever directories it passes over.
pub proof fn lemma_file_is_found(entries: Seq<EntryView>, path: Seq<char>, k: int)
    requires
        0 <= k < entries.len(),
        entries[k] matches EntryView::File(note) && note.path == path,
    ensures
        !finds_among(entries, path, None),
{
    if finds_among(entries, path, None) {
        assert(finds(entries[k], path, None));
    }
}

} // verus!
