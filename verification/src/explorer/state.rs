use crate::explorer::item::{
    clone_items, entry_items, item_views, items_from, lemma_item_view, Item, ItemView,
};
use crate::list_state::ListState;
use crate::obsidian::note::{Note, NoteView};
use crate::obsidian::vault_entry::{entry_views, VaultEntry};
use crate::name_map::{
    lemma_before_irreflexive, lemma_before_total, lemma_before_transitive, lemma_name_bytes,
    name_order, order_names, Order,
};
use crate::text::{lowercase, lowercased};
use vstd::prelude::*;
use vstd::utf8::encode_utf8;

verus! {

/// The direction in which the explorer sorts its items by name.
#[derive(Debug, Clone, Copy, PartialEq, Eq, Structural)]
pub enum Sort {
    Asc,
    Desc,
}

impl Default for Sort {
    fn default() -> (sort: Self)
        ensures
            sort == Sort::Asc,
    {
        Sort::Asc
    }
}

/// The vertical offset, in rows, of a list: the selected row stands in the
/// middle of the window, unless the rows after it do not fill the lower half, in
/// which case the window shows the last rows of the list.
pub open spec fn offset_for(row: int, items_count: int, window_height: int) -> int {
    let half = window_height / 2;
    let last = if items_count >= 1 {
        items_count - 1
    } else {
        0
    };
    if row + half > last {
        if items_count >= window_height {
            items_count - window_height
        } else {
            0
        }
    } else if row >= half {
        row - half
    } else {
        0
    }
}

/// Calculates the vertical offset of list items in rows.
///
/// When the selected item is near the end of the list and there aren't enough
/// items remaining to keep the selection vertically centered, the offset shows as
/// many trailing items as possible instead of centering the selection.
pub fn calculate_offset(row: usize, items_count: usize, window_height: usize) -> (offset: usize)
    ensures
        offset == offset_for(row as int, items_count as int, window_height as int),
{
    let half = window_height / 2;
    let last = if items_count >= 1 {
        items_count - 1
    } else {
        0
    };
    let near_end = if half > last {
        true
    } else {
        row > last - half
    };
    if near_end {
        if items_count >= window_height {
            items_count - window_height
        } else {
            0
        }
    } else if row >= half {
        row - half
    } else {
        0
    }
}

/// How item `a` stands to item `b` in the explorer: directories come before
/// notes, and two of a kind stand in the order of their lowercase names,
/// ascending or descending.
pub open spec fn item_order(a: ItemView, b: ItemView, sort: Sort) -> Order {
    if a.is_dir() && !b.is_dir() {
        Order::Before
    } else if !a.is_dir() && b.is_dir() {
        Order::After
    } else {
        match sort {
            Sort::Asc => name_order(lowercased(a.name()), lowercased(b.name())),
            Sort::Desc => name_order(lowercased(b.name()), lowercased(a.name())),
        }
    }
}

/// Compares two items for the explorer: directories first, then by lowercase
/// name in the direction of `sort`.
pub fn sort_items_by(sort: Sort, a: &Item, b: &Item) -> (order: Order)
    ensures
        order == item_order(a@, b@, sort),
{
    match (a.is_dir(), b.is_dir()) {
        (true, false) => Order::Before,
        (false, true) => Order::After,
        _ => {
            let x = lowercase(a.name());
            let y = lowercase(b.name());
            match sort {
                Sort::Asc => order_names(x.as_str(), y.as_str()),
                Sort::Desc => order_names(y.as_str(), x.as_str()),
            }
        },
    }
}

/// The place at which an item enters a sorted sequence, looking from place `at`
/// on: before the first item that it comes strictly before.
pub open spec fn place_from(sorted: Seq<ItemView>, item: ItemView, sort: Sort, at: int) -> int
    decreases sorted.len() - at,
{
    if at < 0 || at >= sorted.len() {
        sorted.len() as int
    } else if item_order(item, sorted[at], sort) == Order::Before {
        at
    } else {
        place_from(sorted, item, sort, at + 1)
    }
}

/// The items in the order of the explorer. Items that the order does not tell
/// apart keep the order in which they stood.
pub open spec fn sorted_views(items: Seq<ItemView>, sort: Sort) -> Seq<ItemView>
    decreases items.len(),
{
    if items.len() == 0 {
        Seq::empty()
    } else {
        let sorted = sorted_views(items.drop_last(), sort);
        sorted.insert(place_from(sorted, items.last(), sort, 0), items.last())
    }
}

/// The place at which an item enters lies within the sequence.
pub proof fn lemma_place_bounds(sorted: Seq<ItemView>, item: ItemView, sort: Sort, at: int)
    requires
        0 <= at <= sorted.len(),
    ensures
        at <= place_from(sorted, item, sort, at) <= sorted.len(),
    decreases sorted.len() - at,
{
    if at < sorted.len() && item_order(item, sorted[at], sort) != Order::Before {
        lemma_place_bounds(sorted, item, sort, at + 1);
    }
}

/// Sorting keeps the items: the sorted sequence has the length of the given one
/// and each of its items is one of the given items.
pub proof fn lemma_sorted_members(items: Seq<ItemView>, sort: Sort)
    ensures
        sorted_views(items, sort).len() == items.len(),
        forall|k: int|
            0 <= k < items.len() ==> items.contains(#[trigger] sorted_views(items, sort)[k]),
        forall|k: int|
            0 <= k < items.len() ==> sorted_views(items, sort).contains(#[trigger] items[k]),
    decreases items.len(),
{
    if items.len() > 0 {
        let before = items.drop_last();
        let sorted = sorted_views(before, sort);
        lemma_sorted_members(before, sort);
        lemma_place_bounds(sorted, items.last(), sort, 0);
        let place = place_from(sorted, items.last(), sort, 0);
        let result = sorted.insert(place, items.last());
        assert forall|k: int| 0 <= k < items.len() implies items.contains(
            #[trigger] result[k],
        ) by {
            if k == place {
                assert(items[items.len() - 1] == result[k]);
            } else {
                let j = if k < place { k } else { k - 1 };
                assert(result[k] == sorted[j]);
                assert(before.contains(sorted[j]));
                let i = choose|i: int| 0 <= i < before.len() && before[i] == sorted[j];
                assert(items[i] == result[k]);
            }
        }
        assert forall|k: int| 0 <= k < items.len() implies result.contains(
            #[trigger] items[k],
        ) by {
            if k == items.len() - 1 {
                assert(result[place] == items[k]);
            } else {
                assert(before[k] == items[k]);
                assert(sorted.contains(before[k]));
                let j = choose|j: int| 0 <= j < sorted.len() && sorted[j] == before[k];
                let n = if j < place { j } else { j + 1 };
                assert(result[n] == items[k]);
            }
        }
    }
}

/// Of two names, the one that does not come before the other and is not the
/// same comes after it, and then the other comes before it.
pub proof fn lemma_name_order(a: Seq<char>, b: Seq<char>)
    ensures
        name_order(a, b) == Order::Same <==> name_order(b, a) == Order::Same,
        name_order(a, b) == Order::After <==> name_order(b, a) == Order::Before,
{
    lemma_before_total(encode_utf8(a), encode_utf8(b));
    lemma_name_bytes(a, b);
}

/// The order of names is transitive: a name that does not stand after a second
/// one, which does not stand after a third one, does not stand after the third.
pub proof fn lemma_name_order_transitive(a: Seq<char>, b: Seq<char>, c: Seq<char>)
    requires
        name_order(a, b) != Order::After,
        name_order(b, c) != Order::After,
    ensures
        name_order(a, c) != Order::After,
        name_order(a, b) == Order::Before || name_order(b, c) == Order::Before ==> name_order(
            a,
            c,
        ) == Order::Before,
{
    lemma_name_order(a, b);
    lemma_name_order(b, c);
    lemma_name_order(a, c);
    if a != b && b != c {
        lemma_before_transitive(encode_utf8(a), encode_utf8(b), encode_utf8(c));
        lemma_before_irreflexive(encode_utf8(a));
    }
}

/// The order of the explorer is transitive, and two items stand to each other
/// one way round as they do the other way round.
pub proof fn lemma_item_order(a: ItemView, b: ItemView, c: ItemView, sort: Sort)
    ensures
        item_order(a, b, sort) == Order::After <==> item_order(b, a, sort) == Order::Before,
        item_order(a, b, sort) == Order::Same <==> item_order(b, a, sort) == Order::Same,
        item_order(a, b, sort) != Order::After && item_order(b, c, sort) != Order::After
            ==> item_order(a, c, sort) != Order::After,
        item_order(a, b, sort) == Order::Before && item_order(b, c, sort) != Order::After
            ==> item_order(a, c, sort) == Order::Before,
{
    let x = lowercased(a.name());
    let y = lowercased(b.name());
    let z = lowercased(c.name());
    lemma_name_order(x, y);
    lemma_name_order(y, x);
    if item_order(a, b, sort) != Order::After && item_order(b, c, sort) != Order::After {
        if a.is_dir() == b.is_dir() && b.is_dir() == c.is_dir() {
            match sort {
                Sort::Asc => lemma_name_order_transitive(x, y, z),
                Sort::Desc => {
                    lemma_name_order(z, y);
                    lemma_name_order(y, z);
                    lemma_name_order(x, z);
                    lemma_name_order(z, x);
                    lemma_name_order_transitive(z, y, x);
                },
            }
        }
    }
}

/// Whether no item stands after an item behind it.
pub open spec fn ordered(items: Seq<ItemView>, sort: Sort) -> bool {
    forall|i: int, j: int|
        0 <= i < j < items.len() ==> item_order(
            #[trigger] items[i],
            #[trigger] items[j],
            sort,
        ) != Order::After
}

/// The item that enters stands before the item at its place and not before any
/// item before its place.
pub proof fn lemma_place(sorted: Seq<ItemView>, item: ItemView, sort: Sort, at: int)
    requires
        0 <= at <= sorted.len(),
    ensures
        forall|k: int|
            at <= k < place_from(sorted, item, sort, at) ==> item_order(
                item,
                #[trigger] sorted[k],
                sort,
            ) != Order::Before,
        place_from(sorted, item, sort, at) < sorted.len() ==> item_order(
            item,
            sorted[place_from(sorted, item, sort, at)],
            sort,
        ) == Order::Before,
    decreases sorted.len() - at,
{
    if at < sorted.len() && item_order(item, sorted[at], sort) != Order::Before {
        lemma_place(sorted, item, sort, at + 1);
    }
}

/// Sorting orders the items: in the sorted sequence no item stands after an
/// item behind it.
pub proof fn lemma_sorted_ordered(items: Seq<ItemView>, sort: Sort)
    ensures
        ordered(sorted_views(items, sort), sort),
    decreases items.len(),
{
    if items.len() > 0 {
        let before = items.drop_last();
        let sorted = sorted_views(before, sort);
        let item = items.last();
        lemma_sorted_ordered(before, sort);
        lemma_place_bounds(sorted, item, sort, 0);
        lemma_place(sorted, item, sort, 0);
        let place = place_from(sorted, item, sort, 0);
        let result = sorted.insert(place, item);
        assert forall|i: int, j: int| 0 <= i < j < result.len() implies item_order(
            #[trigger] result[i],
            #[trigger] result[j],
            sort,
        ) != Order::After by {
            if j == place {
                assert(result[i] == sorted[i]);
                lemma_item_order(item, sorted[i], item, sort);
            } else if i == place {
                assert(result[j] == sorted[j - 1]);
                if j - 1 > place {
                    assert(item_order(sorted[place], sorted[j - 1], sort) != Order::After);
                }
                lemma_item_order(item, sorted[place], sorted[j - 1], sort);
            } else {
                let a = if i < place { i } else { i - 1 };
                let b = if j < place { j } else { j - 1 };
                assert(result[i] == sorted[a]);
                assert(result[j] == sorted[b]);
                assert(item_order(sorted[a], sorted[b], sort) != Order::After);
            }
        }
    }
}

/// Sorts the items for the explorer: directories first, then by lowercase name
/// in the direction of `sort`; the sort is stable.
pub fn sort_items(items: Vec<Item>, sort: Sort) -> (sorted: Vec<Item>)
    ensures
        item_views(sorted@) == sorted_views(item_views(items@), sort),
{
    let ghost all = items@;
    let mut sorted: Vec<Item> = Vec::new();
    for item in iter: items
        invariant
            iter.seq() == all,
            item_views(sorted@) == sorted_views(item_views(all.take(iter.index() as int)), sort),
    {
        let ghost views = item_views(sorted@);
        let mut place: usize = 0;
        while place < sorted.len() && sort_items_by(sort, &item, &sorted[place]) != Order::Before
            invariant
                place <= sorted.len(),
                views == item_views(sorted@),
                place_from(views, item@, sort, 0) == place_from(views, item@, sort, place as int),
            decreases sorted.len() - place,
        {
            place += 1;
        }
        sorted.insert(place, item);
        proof {
            let seen = item_views(all.take(iter.index() + 1));
            assert(seen.drop_last() =~= item_views(all.take(iter.index() as int)));
            assert(seen.last() == item@);
            assert(item_views(sorted@) =~= views.insert(place as int, item@));
        }
    }
    assert(all.take(all.len() as int) =~= all);
    sorted
}

/// The depth of the items below an item of the given depth.
pub open spec fn below(depth: usize) -> usize {
    if depth < usize::MAX {
        (depth + 1) as usize
    } else {
        depth
    }
}

/// The rows that an item takes in the explorer: the item itself at its depth
/// and, where it is an expanded directory, the rows of its items, sorted, one
/// level deeper.
pub open spec fn flat(item: ItemView, depth: usize, sort: Sort) -> Seq<(ItemView, usize)>
    decreases item, 1int,
{
    seq![(item, depth)] + rows_below(item, depth, sort).flatten()
}

/// The rows of each item of an expanded directory, the items taken in their
/// sorted order; nothing for a collapsed directory or a note.
pub open spec fn rows_below(item: ItemView, depth: usize, sort: Sort) -> Seq<
    Seq<(ItemView, usize)>,
>
    decreases item, 0int,
    via rows_below_decreases
{
    match item {
        ItemView::Directory { expanded: true, items, .. } => {
            let sorted = sorted_views(items, sort);
            Seq::new(
                sorted.len(),
                |k: int|
                    if 0 <= k < sorted.len() {
                        flat(sorted[k], below(depth), sort)
                    } else {
                        Seq::empty()
                    },
            )
        },
        _ => Seq::empty(),
    }
}

#[via_fn]
proof fn rows_below_decreases(item: ItemView, depth: usize, sort: Sort) {
    match item {
        ItemView::Directory { expanded: true, items, .. } => {
            let sorted = sorted_views(items, sort);
            lemma_sorted_members(items, sort);
            assert forall|k: int| 0 <= k < sorted.len() implies decreases_to!(item => #[trigger] sorted[k]) by {
                let j = choose|j: int| 0 <= j < items.len() && items[j] == sorted[k];
                assert(items[j] == sorted[k]);
            }
        },
        _ => {},
    }
}

/// What a sequence of rows stands for.
pub open spec fn row_views(rows: Seq<(Item, usize)>) -> Seq<(ItemView, usize)> {
    Seq::new(rows.len(), |i: int| (rows[i].0@, rows[i].1))
}

/// The rows of a sequence of items, each at the given depth, one after the
/// other.
pub open spec fn flat_list(items: Seq<ItemView>, depth: usize, sort: Sort) -> Seq<
    (ItemView, usize),
> {
    Seq::new(items.len(), |k: int| flat(items[k], depth, sort)).flatten()
}

/// The rows of an expanded directory: the directory, then the rows of its
/// sorted items one level deeper.
pub proof fn lemma_flat_directory(item: ItemView, depth: usize, sort: Sort)
    ensures
        item matches ItemView::Directory { expanded: true, .. } ==> flat(item, depth, sort)
            == seq![(item, depth)] + flat_list(
            sorted_views(item->items, sort),
            below(depth),
            sort,
        ),
        !(item matches ItemView::Directory { expanded: true, .. }) ==> flat(item, depth, sort)
            == seq![(item, depth)],
{
    match item {
        ItemView::Directory { expanded: true, items, .. } => {
            let sorted = sorted_views(items, sort);
            let plain = Seq::new(sorted.len(), |k: int| flat(sorted[k], below(depth), sort));
            assert(rows_below(item, depth, sort) =~= plain);
        },
        _ => {
            assert(rows_below(item, depth, sort) =~= Seq::empty());
            assert(flat(item, depth, sort) =~= seq![(item, depth)]);
        },
    }
}

/// The rows of a sequence of items with one more item are the rows of the
/// sequence followed by the rows of the item.
pub proof fn lemma_flat_list_push(items: Seq<ItemView>, item: ItemView, depth: usize, sort: Sort)
    ensures
        flat_list(items.push(item), depth, sort) == flat_list(items, depth, sort) + flat(
            item,
            depth,
            sort,
        ),
{
    let parts = Seq::new(items.len(), |k: int| flat(items[k], depth, sort));
    let more = Seq::new(items.push(item).len(), |k: int| flat(items.push(item)[k], depth, sort));
    assert(more =~= parts.push(flat(item, depth, sort)));
    parts.lemma_flatten_push(flat(item, depth, sort));
}

/// Flattens an item into the rows that it takes in the explorer.
pub fn flatten(sort: Sort, depth: usize, item: &Item) -> (rows: Vec<(Item, usize)>)
    ensures
        row_views(rows@) == flat(item@, depth, sort),
    decreases item@,
{
    let mut rows: Vec<(Item, usize)> = Vec::new();
    rows.push((item.clone(), depth));
    assert(row_views(rows@) =~= seq![(item@, depth)]);
    proof {
        lemma_item_view(*item);
    }
    match item {
        Item::Directory { expanded: true, items, .. } => {
            let sorted = sort_items(clone_items(items), sort);
            let next = if depth < usize::MAX {
                depth + 1
            } else {
                depth
            };
            let ghost views = item_views(sorted@);
            proof {
                lemma_flat_directory(item@, depth, sort);
                lemma_sorted_members(item@->items, sort);
                assert(flat_list(views.take(0), next, sort) =~= Seq::empty());
            }
            let mut k: usize = 0;
            while k < sorted.len()
                invariant
                    k <= sorted.len(),
                    next == below(depth),
                    views == item_views(sorted@),
                    item@ matches ItemView::Directory { expanded: true, .. },
                    views == sorted_views(item@->items, sort),
                    forall|i: int|
                        0 <= i < views.len() ==> (item@->items).contains(#[trigger] views[i]),
                    row_views(rows@) == seq![(item@, depth)] + flat_list(
                        views.take(k as int),
                        next,
                        sort,
                    ),
                decreases sorted.len() - k,
            {
                proof {
                    let child = views[k as int];
                    assert((item@->items).contains(child));
                    let j = choose|j: int| 0 <= j < (item@->items).len() && (item@->items)[j] == child;
                    assert((item@->items)[j] == sorted[k as int]@);
                }
                let ghost before = row_views(rows@);
                let mut sub = flatten(sort, next, &sorted[k]);
                let ghost added = row_views(sub@);
                rows.append(&mut sub);
                proof {
                    assert(row_views(rows@) =~= before + added);
                    assert(views.take(k + 1) =~= views.take(k as int).push(views[k as int]));
                    lemma_flat_list_push(views.take(k as int), views[k as int], next, sort);
                }
                k += 1;
            }
            assert(views.take(k as int) =~= views);
        },
        _ => {},
    }
    rows
}

/// The rows of a list of items at depth 0, one item after the other.
pub fn flatten_all(sort: Sort, items: &Vec<Item>) -> (rows: Vec<(Item, usize)>)
    ensures
        row_views(rows@) == flat_list(item_views(items@), 0, sort),
{
    let mut rows: Vec<(Item, usize)> = Vec::new();
    let ghost views = item_views(items@);
    assert(row_views(rows@) =~= flat_list(views.take(0), 0, sort));
    let mut k: usize = 0;
    while k < items.len()
        invariant
            k <= items.len(),
            views == item_views(items@),
            row_views(rows@) == flat_list(views.take(k as int), 0, sort),
        decreases items.len() - k,
    {
        let ghost before = row_views(rows@);
        let mut sub = flatten(sort, 0, &items[k]);
        let ghost added = row_views(sub@);
        rows.append(&mut sub);
        proof {
            assert(row_views(rows@) =~= before + added);
            assert(views.take(k + 1) =~= views.take(k as int).push(views[k as int]));
            lemma_flat_list_push(views.take(k as int), views[k as int], 0, sort);
        }
        k += 1;
    }
    assert(views.take(k as int) =~= views);
    rows
}

/// An item after the directory with the given path has been toggled: that
/// directory, wherever it stands in the item, is expanded if it was collapsed
/// and collapsed if it was expanded.
pub open spec fn toggled(item: ItemView, path: Seq<char>) -> ItemView
    decreases item,
{
    match item {
        ItemView::Directory { name, path: own, expanded, items } => ItemView::Directory {
            name,
            path: own,
            expanded: if own == path {
                !expanded
            } else {
                expanded
            },
            items: Seq::new(
                items.len(),
                |i: int|
                    if 0 <= i < items.len() {
                        toggled(items[i], path)
                    } else {
                        arbitrary()
                    },
            ),
        },
        ItemView::File(_) => item,
    }
}

/// A sequence of items after the directory with the given path has been toggled.
pub open spec fn toggled_list(items: Seq<ItemView>, path: Seq<char>) -> Seq<ItemView> {
    Seq::new(items.len(), |i: int| toggled(items[i], path))
}

/// Toggles the directory with the given path in an item.
pub fn toggle_item_in_tree(item: &Item, identifier: &str) -> (res: Item)
    ensures
        res@ == toggled(item@, identifier@),
    decreases item,
{
    proof {
        lemma_item_view(*item);
    }
    let res = match item {
        Item::Directory { expanded, path, name, items } => {
            let expanded = if order_names(path.as_str(), identifier) == Order::Same {
                !*expanded
            } else {
                *expanded
            };
            let mut children: Vec<Item> = Vec::new();
            let mut i: usize = 0;
            while i < items.len()
                invariant
                    i <= items.len(),
                    children.len() == i,
                    forall|k: int|
                        0 <= k < i ==> (#[trigger] children[k])@ == toggled(
                            items[k]@,
                            identifier@,
                        ),
                    *item matches Item::Directory { items: held, .. } && held == *items,
                decreases items.len() - i,
            {
                children.push(toggle_item_in_tree(&items[i], identifier));
                i += 1;
            }
            assert(item_views(children@) =~= toggled(item@, identifier@)->items);
            Item::Directory { name: name.clone(), path: path.clone(), expanded, items: children }
        },
        Item::File(note) => Item::File(note.clone()),
    };
    proof {
        lemma_item_view(res);
    }
    res
}

/// Toggles the directory with the given path in each item of a list.
pub fn toggle_items(items: &Vec<Item>, identifier: &str) -> (res: Vec<Item>)
    ensures
        item_views(res@) == toggled_list(item_views(items@), identifier@),
{
    let mut res: Vec<Item> = Vec::new();
    let mut i: usize = 0;
    while i < items.len()
        invariant
            i <= items.len(),
            res.len() == i,
            forall|k: int| 0 <= k < i ==> (#[trigger] res[k])@ == toggled(items[k]@, identifier@),
        decreases items.len() - i,
    {
        res.push(toggle_item_in_tree(&items[i], identifier));
        i += 1;
    }
    assert(item_views(res@) =~= toggled_list(item_views(items@), identifier@));
    res
}

/// The state of the explorer pane.
#[derive(Debug, PartialEq)]
pub struct ExplorerState {
    pub title: String,
    pub selected_note: Option<Note>,
    pub selected_item_index: Option<usize>,
    pub selected_item_path: Option<String>,
    /// The items of the vault, the top level sorted.
    pub items: Vec<Item>,
    /// The rows of the items, as the list shows them.
    pub flat_items: Vec<(Item, usize)>,
    pub open: bool,
    pub sort: Sort,
    pub list_state: ListState,
    pub active: bool,
}

/// What an [`ExplorerState`] stands for.
pub struct ExplorerView {
    pub title: Seq<char>,
    pub selected_note: Option<NoteView>,
    pub selected_item_index: Option<usize>,
    pub selected_item_path: Option<Seq<char>>,
    pub items: Seq<ItemView>,
    pub flat_items: Seq<(ItemView, usize)>,
    pub open: bool,
    pub sort: Sort,
    pub list_state: ListState,
    pub active: bool,
}

impl View for ExplorerState {
    type V = ExplorerView;

    open spec fn view(&self) -> ExplorerView {
        ExplorerView {
            title: self.title@,
            selected_note: match self.selected_note {
                Some(note) => Some(note@),
                None => None,
            },
            selected_item_index: self.selected_item_index,
            selected_item_path: match self.selected_item_path {
                Some(path) => Some(path@),
                None => None,
            },
            items: item_views(self.items@),
            flat_items: row_views(self.flat_items@),
            open: self.open,
            sort: self.sort,
            list_state: self.list_state,
            active: self.active,
        }
    }
}

/// Copies a list of rows.
fn clone_rows(rows: &Vec<(Item, usize)>) -> (copy: Vec<(Item, usize)>)
    ensures
        row_views(copy@) == row_views(rows@),
{
    let mut copy: Vec<(Item, usize)> = Vec::new();
    let mut i: usize = 0;
    while i < rows.len()
        invariant
            i <= rows.len(),
            copy.len() == i,
            forall|k: int|
                0 <= k < i ==> (#[trigger] copy[k]).0@ == rows[k].0@ && copy[k].1 == rows[k].1,
        decreases rows.len() - i,
    {
        copy.push((rows[i].0.clone(), rows[i].1));
        i += 1;
    }
    assert(row_views(copy@) =~= row_views(rows@));
    copy
}

impl Clone for ExplorerState {
    fn clone(&self) -> (res: Self)
        ensures
            res@ == self@,
    {
        ExplorerState {
            title: self.title.clone(),
            selected_note: match &self.selected_note {
                Some(note) => Some(note.clone()),
                None => None,
            },
            selected_item_index: self.selected_item_index,
            selected_item_path: match &self.selected_item_path {
                Some(path) => Some(path.clone()),
                None => None,
            },
            items: clone_items(&self.items),
            flat_items: clone_rows(&self.flat_items),
            open: self.open,
            sort: self.sort,
            list_state: self.list_state,
            active: self.active,
        }
    }
}

/// The row that is `amount` rows further down than `row` in a list of `count`
/// rows: it stops at the last row.
pub open spec fn row_after(row: usize, amount: usize, count: usize) -> usize {
    let last: int = if count >= 1 {
        count - 1
    } else {
        0
    };
    if row + amount <= last {
        (row + amount) as usize
    } else {
        last as usize
    }
}

/// The row that is `amount` rows further up than `row`: it stops at the first
/// row.
pub open spec fn row_before(row: usize, amount: usize) -> usize {
    if row >= amount {
        (row - amount) as usize
    } else {
        0
    }
}

impl ExplorerView {
    /// The explorer with its items sorted in the given direction and the rows
    /// laid out anew.
    pub open spec fn sorted_by(self, sort: Sort) -> ExplorerView {
        ExplorerView {
            items: sorted_views(self.items, sort),
            flat_items: flat_list(sorted_views(self.items, sort), 0, sort),
            sort,
            ..self
        }
    }

    /// The explorer with other items, sorted in its direction, and the rows
    /// laid out anew.
    pub open spec fn with_items(self, items: Seq<ItemView>) -> ExplorerView {
        ExplorerView {
            items: sorted_views(items, self.sort),
            flat_items: flat_list(sorted_views(items, self.sort), 0, self.sort),
            ..self
        }
    }

    /// The explorer sorted in the other direction.
    pub open spec fn turned(self) -> ExplorerView {
        self.sorted_by(
            match self.sort {
                Sort::Asc => Sort::Desc,
                Sort::Desc => Sort::Asc,
            },
        )
    }

    /// The explorer after the row under the cursor has been acted on: a
    /// directory is expanded or collapsed, a note becomes the selected note.
    pub open spec fn selected(self) -> ExplorerView {
        match self.list_state.selected {
            Some(row) => if row < self.flat_items.len() {
                match self.flat_items[row as int].0 {
                    ItemView::Directory { path, .. } => self.with_items(
                        toggled_list(self.items, path),
                    ),
                    ItemView::File(note) => ExplorerView {
                        selected_note: Some(note),
                        selected_item_index: Some(row),
                        selected_item_path: Some(note.path),
                        ..self
                    },
                }
            } else {
                self
            },
            None => self,
        }
    }

    /// The explorer with the cursor `amount` rows further down.
    pub open spec fn moved_down(self, amount: usize) -> ExplorerView {
        ExplorerView {
            list_state: match self.list_state.selected {
                Some(row) => ListState {
                    selected: Some(row_after(row, amount, self.flat_items.len() as usize)),
                    ..self.list_state
                },
                None => ListState { selected: None, offset: 0 },
            },
            ..self
        }
    }

    /// The explorer with the cursor `amount` rows further up.
    pub open spec fn moved_up(self, amount: usize) -> ExplorerView {
        ExplorerView {
            list_state: match self.list_state.selected {
                Some(row) => ListState {
                    selected: Some(row_before(row, amount)),
                    ..self.list_state
                },
                None => ListState { selected: None, offset: 0 },
            },
            ..self
        }
    }
}

impl ExplorerState {
    /// The explorer of a vault: open, sorted ascending, every directory
    /// collapsed, the first row under the cursor and nothing selected.
    pub fn new(title: &str, items: Vec<VaultEntry>) -> (state: Self)
        ensures
            state@ == (ExplorerView {
                title: title@,
                selected_note: None,
                selected_item_index: None,
                selected_item_path: None,
                items: sorted_views(entry_items(entry_views(items@)), Sort::Asc),
                flat_items: flat_list(
                    sorted_views(entry_items(entry_views(items@)), Sort::Asc),
                    0,
                    Sort::Asc,
                ),
                open: true,
                sort: Sort::Asc,
                list_state: ListState { offset: 0, selected: Some(0) },
                active: false,
            }),
    {
        let items = items_from(&items);
        let state = ExplorerState {
            title: title.to_owned(),
            sort: Sort::Asc,
            open: true,
            selected_item_index: None,
            selected_item_path: None,
            selected_note: None,
            list_state: ListState::default().with_selected(Some(0)),
            items: Vec::new(),
            flat_items: Vec::new(),
            active: false,
        };
        state.flatten_with_items(&items)
    }

    /// The state with the pane marked active or not.
    pub fn set_active(&self, active: bool) -> (state: Self)
        ensures
            state@ == (ExplorerView { active, ..self@ }),
    {
        let mut state = self.clone();
        state.active = active;
        state
    }

    /// The state with the pane opened if it was closed and closed if it was
    /// open.
    pub fn toggle(&self) -> (state: Self)
        ensures
            state@ == (ExplorerView { open: !self.open, ..self@ }),
    {
        let mut state = self.clone();
        state.open = !self.open;
        state
    }

    /// The state with the pane open.
    pub fn open(self) -> (state: Self)
        ensures
            state@ == (ExplorerView { open: true, ..self@ }),
    {
        let mut state = self;
        state.open = true;
        state
    }

    /// The state with the pane closed.
    pub fn close(self) -> (state: Self)
        ensures
            state@ == (ExplorerView { open: false, ..self@ }),
    {
        let mut state = self;
        state.open = false;
        state
    }

    /// The state with its items sorted in the given direction and the rows
    /// laid out anew.
    pub fn flatten_with_sort(&self, sort: Sort) -> (state: Self)
        ensures
            state@ == self@.sorted_by(sort),
    {
        let items = sort_items(clone_items(&self.items), sort);
        let flat_items = flatten_all(sort, &items);
        let mut state = self.clone();
        state.items = items;
        state.flat_items = flat_items;
        state.sort = sort;
        state
    }

    /// The state with the given items in place of its own, sorted in the
    /// direction of the state, and the rows laid out anew.
    pub fn flatten_with_items(&self, items: &Vec<Item>) -> (state: Self)
        ensures
            state@ == self@.with_items(item_views(items@)),
    {
        let items = sort_items(clone_items(items), self.sort);
        let flat_items = flatten_all(self.sort, &items);
        let mut state = self.clone();
        state.items = items;
        state.flat_items = flat_items;
        state
    }

    /// The state sorted in the other direction.
    pub fn sort(&self) -> (state: Self)
        ensures
            state@ == self@.turned(),
    {
        let sort = match self.sort {
            Sort::Asc => Sort::Desc,
            Sort::Desc => Sort::Asc,
        };
        self.flatten_with_sort(sort)
    }

    /// Moves the first row shown so that the row under the cursor stays in the
    /// middle of a window of the given height; an explorer without items keeps
    /// its offset.
    pub fn update_offset_mut(&mut self, window_height: usize)
        ensures
            final(self)@ == (ExplorerView {
                list_state: ListState {
                    offset: if old(self).items.len() == 0 {
                        old(self).list_state.offset
                    } else {
                        offset_for(
                            match old(self).list_state.selected {
                                Some(row) => row as int,
                                None => 0,
                            },
                            old(self).items.len() as int,
                            window_height as int,
                        ) as usize
                    },
                    ..old(self).list_state
                },
                ..old(self)@
            }),
    {
        if self.items.len() > 0 {
            let idx = match self.list_state.selected() {
                Some(row) => row,
                None => 0,
            };
            let items_count = self.items.len();
            let offset = calculate_offset(idx, items_count, window_height);
            self.list_state.offset = offset;
        }
    }

    /// Acts on the row under the cursor: a directory is expanded or collapsed,
    /// a note becomes the selected note. Without a row under the cursor the
    /// state stays as it is.
    pub fn select(&self) -> (state: Self)
        ensures
            state@ == self@.selected(),
    {
        let selected = match self.list_state.selected() {
            Some(row) => row,
            None => {
                return self.clone();
            },
        };
        if selected >= self.flat_items.len() {
            return self.clone();
        }
        proof {
            lemma_item_view(self.flat_items[selected as int].0);
        }
        match &self.flat_items[selected].0 {
            Item::Directory { path, .. } => {
                let items = toggle_items(&self.items, path.as_str());
                self.flatten_with_items(&items)
            },
            Item::File(note) => {
                let mut state = self.clone();
                state.selected_note = Some(note.clone());
                state.selected_item_index = Some(selected);
                state.selected_item_path = Some(note.path.clone());
                state
            },
        }
    }

    /// The path of the selected note, if any.
    pub fn selected_path(&self) -> (path: Option<String>)
        ensures
            path is Some == self.selected_item_path is Some,
            path is Some ==> path->0@ == self.selected_item_path->0@,
    {
        match &self.selected_item_path {
            Some(path) => Some(path.clone()),
            None => None,
        }
    }

    /// Whether the pane is open.
    pub fn is_open(&self) -> (open: bool)
        ensures
            open == self.open,
    {
        self.open
    }

    /// Moves the cursor `amount` rows down; it stops at the last row.
    pub fn next(self, amount: usize) -> (state: Self)
        ensures
            state@ == self@.moved_down(amount),
    {
        let mut state = self;
        let last = if state.flat_items.len() >= 1 {
            state.flat_items.len() - 1
        } else {
            0
        };
        let index = match state.list_state.selected() {
            Some(row) => Some(
                if row >= last {
                    last
                } else if amount >= last - row {
                    last
                } else {
                    row + amount
                },
            ),
            None => None,
        };
        state.list_state.select(index);
        state
    }

    /// Moves the cursor `amount` rows up; it stops at the first row.
    pub fn previous(self, amount: usize) -> (state: Self)
        ensures
            state@ == self@.moved_up(amount),
    {
        let mut state = self;
        let index = match state.list_state.selected() {
            Some(row) => Some(row.saturating_sub(amount)),
            None => None,
        };
        state.list_state.select(index);
        state
    }
}

} // verus!
