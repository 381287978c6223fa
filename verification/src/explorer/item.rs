use crate::obsidian::note::{Note, NoteView};
use crate::obsidian::vault_entry::{entry_views, lemma_directory_view, EntryView, VaultEntry};
use vstd::prelude::*;
use vstd::std_specs::convert::FromSpecImpl;

verus! {

/// An item of the explorer: a note, or a directory that is expanded or not.
#[derive(Debug, PartialEq)]
pub enum Item {
    File(Note),
    Directory { name: String, path: String, expanded: bool, items: Vec<Item> },
}

/// What an [`Item`] stands for.
pub enum ItemView {
    File(NoteView),
    Directory { name: Seq<char>, path: Seq<char>, expanded: bool, items: Seq<ItemView> },
}

/// What an item stands for.
pub open spec fn item_view(item: Item) -> ItemView
    decreases item,
{
    match item {
        Item::File(note) => ItemView::File(note@),
        Item::Directory { name, path, expanded, items } => ItemView::Directory {
            name: name@,
            path: path@,
            expanded,
            items: Seq::new(
                items.len() as nat,
                |i: int|
                    if 0 <= i < items.len() {
                        item_view(items[i])
                    } else {
                        arbitrary()
                    },
            ),
        },
    }
}

impl View for Item {
    type V = ItemView;

    open spec fn view(&self) -> ItemView {
        item_view(*self)
    }
}

/// What a sequence of items stands for.
pub open spec fn item_views(items: Seq<Item>) -> Seq<ItemView> {
    Seq::new(items.len(), |i: int| items[i]@)
}

/// The items of a directory's view are the views of its items.
pub proof fn lemma_item_view(item: Item)
    ensures
        item matches Item::Directory { name, path, expanded, items } ==> item@ == (
        ItemView::Directory { name: name@, path: path@, expanded, items: item_views(items@) }),
        item matches Item::File(note) ==> item@ == ItemView::File(note@),
{
    match item {
        Item::Directory { name, path, expanded, items } => {
            assert(item@->items =~= item_views(items@));
        },
        _ => {},
    }
}

impl ItemView {
    /// The name of the item.
    pub open spec fn name(self) -> Seq<char> {
        match self {
            ItemView::File(note) => note.name,
            ItemView::Directory { name, .. } => name,
        }
    }

    /// Whether the item is a directory.
    pub open spec fn is_dir(self) -> bool {
        self is Directory
    }
}

/// The item that a vault entry becomes: a note stays a note, a directory
/// becomes a collapsed directory of the items that its entries become.
pub open spec fn entry_item(entry: EntryView) -> ItemView
    decreases entry,
{
    match entry {
        EntryView::File(note) => ItemView::File(note),
        EntryView::Directory { name, path, entries } => ItemView::Directory {
            name,
            path,
            expanded: false,
            items: Seq::new(
                entries.len(),
                |i: int|
                    if 0 <= i < entries.len() {
                        entry_item(entries[i])
                    } else {
                        arbitrary()
                    },
            ),
        },
    }
}

/// The items that a sequence of vault entries becomes.
pub open spec fn entry_items(entries: Seq<EntryView>) -> Seq<ItemView> {
    Seq::new(entries.len(), |i: int| entry_item(entries[i]))
}

impl Item {
    /// The name of the item.
    pub fn name(&self) -> (name: &str)
        ensures
            name@ == self@.name(),
    {
        match self {
            Item::Directory { name, .. } => name.as_str(),
            Item::File(note) => note.name.as_str(),
        }
    }

    /// Whether the item is a directory.
    pub fn is_dir(&self) -> (b: bool)
        ensures
            b == self@.is_dir(),
    {
        match self {
            Item::Directory { .. } => true,
            Item::File(_) => false,
        }
    }

    /// The item that a vault entry becomes.
    pub fn from_entry(entry: &VaultEntry) -> (item: Item)
        ensures
            item@ == entry_item(entry@),
        decreases entry,
    {
        proof {
            lemma_directory_view(*entry);
        }
        let item = match entry {
            VaultEntry::File(note) => Item::File(note.clone()),
            VaultEntry::Directory { name, path, entries } => {
                let mut items: Vec<Item> = Vec::new();
                let mut i: usize = 0;
                while i < entries.len()
                    invariant
                        i <= entries.len(),
                        items.len() == i,
                        forall|k: int| 0 <= k < i ==> (#[trigger] items[k])@ == entry_item(entries[k]@),
                        *entry matches VaultEntry::Directory { entries: held, .. } && held
                            == *entries,
                    decreases entries.len() - i,
                {
                    items.push(Item::from_entry(&entries[i]));
                    i += 1;
                }
                assert(item_views(items@) =~= entry_items(entry_views(entries@)));
                assert(entry_item(entry@)->items =~= entry_items(entry_views(entries@)));
                Item::Directory { name: name.clone(), path: path.clone(), expanded: false, items }
            },
        };
        proof {
            lemma_item_view(item);
        }
        item
    }
}

/// The items that a list of vault entries becomes, in the same order.
pub fn items_from(entries: &Vec<VaultEntry>) -> (items: Vec<Item>)
    ensures
        item_views(items@) == entry_items(entry_views(entries@)),
{
    let mut items: Vec<Item> = Vec::new();
    let mut i: usize = 0;
    while i < entries.len()
        invariant
            i <= entries.len(),
            items.len() == i,
            forall|k: int| 0 <= k < i ==> (#[trigger] items[k])@ == entry_item(entries[k]@),
        decreases entries.len() - i,
    {
        items.push(Item::from_entry(&entries[i]));
        i += 1;
    }
    assert(item_views(items@) =~= entry_items(entry_views(entries@)));
    items
}

impl From<VaultEntry> for Item {
    fn from(value: VaultEntry) -> (item: Self)
        ensures
            item@ == entry_item(value@),
    {
        Item::from_entry(&value)
    }
}

impl FromSpecImpl<VaultEntry> for Item {
    open spec fn obeys_from_spec() -> bool {
        false
    }

    open spec fn from_spec(value: VaultEntry) -> Self {
        arbitrary()
    }
}

impl Clone for Item {
    fn clone(&self) -> (res: Self)
        ensures
            res@ == self@,
        decreases self,
    {
        proof {
            lemma_item_view(*self);
        }
        let res = match self {
            Item::File(note) => Item::File(note.clone()),
            Item::Directory { name, path, expanded, items } => {
                let mut copy: Vec<Item> = Vec::new();
                let mut i: usize = 0;
                while i < items.len()
                    invariant
                        i <= items.len(),
                        copy.len() == i,
                        forall|k: int| 0 <= k < i ==> (#[trigger] copy[k])@ == items[k]@,
                        *self matches Item::Directory { items: held, .. } && held == *items,
                    decreases items.len() - i,
                {
                    copy.push(items[i].clone());
                    i += 1;
                }
                assert(item_views(copy@) =~= item_views(items@));
                Item::Directory {
                    name: name.clone(),
                    path: path.clone(),
                    expanded: *expanded,
                    items: copy,
                }
            },
        };
        proof {
            lemma_item_view(res);
        }
        res
    }
}

/// Copies a list of items.
pub fn clone_items(items: &Vec<Item>) -> (copy: Vec<Item>)
    ensures
        item_views(copy@) == item_views(items@),
{
    let mut copy: Vec<Item> = Vec::new();
    let mut i: usize = 0;
    while i < items.len()
        invariant
            i <= items.len(),
            copy.len() == i,
            forall|k: int| 0 <= k < i ==> (#[trigger] copy[k])@ == items[k]@,
        decreases items.len() - i,
    {
        copy.push(items[i].clone());
        i += 1;
    }
    assert(item_views(copy@) =~= item_views(items@));
    copy
}

} // verus!
