use std::ops::Range;
use vstd::prelude::*;

verus! {

/// An item of the outline: a heading without headings below it, or a heading
/// with the headings below it, expanded or not.
#[derive(Debug, PartialEq)]
pub enum Item {
    Heading { range: Range<usize>, content: String },
    HeadingEntry { range: Range<usize>, content: String, children: Vec<Item>, expanded: bool },
}

/// What an [`Item`] stands for.
pub enum ItemView {
    Heading { range: Range<usize>, content: Seq<char> },
    HeadingEntry {
        range: Range<usize>,
        content: Seq<char>,
        children: Seq<ItemView>,
        expanded: bool,
    },
}

/// What an item stands for.
pub open spec fn item_view(item: Item) -> ItemView
    decreases item,
{
    match item {
        Item::Heading { range, content } => ItemView::Heading { range, content: content@ },
        Item::HeadingEntry { range, content, children, expanded } => ItemView::HeadingEntry {
            range,
            content: content@,
            children: Seq::new(
                children.len() as nat,
                |i: int|
                    if 0 <= i < children.len() {
                        item_view(children[i])
                    } else {
                        arbitrary()
                    },
            ),
            expanded,
        },
    }
}

impl View for Item {
    type V = ItemView;

    open spec fn view(&self) -> ItemView {
        item_view(*self)
    }
}

/// What a sequence of items stands for.
pub open spec fn item_views(items: Seq<Item>) -> Seq<ItemView> {
    Seq::new(items.len(), |i: int| items[i]@)
}

/// The view of an item, its children seen as views.
pub proof fn lemma_item_view(item: Item)
    ensures
        item matches Item::HeadingEntry { range, content, children, expanded } ==> item@ == (
        ItemView::HeadingEntry {
            range,
            content: content@,
            children: item_views(children@),
            expanded,
        }),
        item matches Item::Heading { range, content } ==> item@ == (ItemView::Heading {
            range,
            content: content@,
        }),
{
    match item {
        Item::HeadingEntry { range, content, children, expanded } => {
            assert(item@->children =~= item_views(children@));
        },
        _ => {},
    }
}

impl ItemView {
    /// The range of the item: the nodes of the note from the heading up to the
    /// next heading.
    pub open spec fn range(self) -> Range<usize> {
        match self {
            ItemView::Heading { range, .. } => range,
            ItemView::HeadingEntry { range, .. } => range,
        }
    }

    /// Whether the range of the item holds the index.
    pub open spec fn contains_index(self, index: usize) -> bool {
        self.range().start <= index < self.range().end
    }
}

/// The rows that an item takes in the outline: the item itself and, where it
/// is expanded, the rows of the items below it.
pub open spec fn flat(item: ItemView) -> Seq<ItemView>
    decreases item, 1int,
{
    seq![item] + rows_below(item).flatten()
}

/// The rows of each item below an expanded item; nothing for a collapsed item
/// or a heading without items below it.
pub open spec fn rows_below(item: ItemView) -> Seq<Seq<ItemView>>
    decreases item, 0int,
{
    match item {
        ItemView::HeadingEntry { expanded: true, children, .. } => Seq::new(
            children.len(),
            |i: int|
                if 0 <= i < children.len() {
                    flat(children[i])
                } else {
                    Seq::empty()
                },
        ),
        _ => Seq::empty(),
    }
}

/// The rows of a sequence of items, one item after the other.
pub open spec fn flat_list(items: Seq<ItemView>) -> Seq<ItemView> {
    Seq::new(items.len(), |i: int| flat(items[i])).flatten()
}

/// The rows of an item are the item followed by the rows of its children, where
/// it is expanded.
pub proof fn lemma_flat(item: ItemView)
    ensures
        item matches ItemView::HeadingEntry { expanded: true, children, .. } ==> flat(item)
            == seq![item] + flat_list(children),
        !(item matches ItemView::HeadingEntry { expanded: true, .. }) ==> flat(item)
            == seq![item],
{
    match item {
        ItemView::HeadingEntry { expanded: true, children, .. } => {
            assert(rows_below(item) =~= Seq::new(children.len(), |i: int| flat(children[i])));
        },
        _ => {
            assert(rows_below(item) =~= Seq::empty());
            assert(flat(item) =~= seq![item]);
        },
    }
}

/// The rows of a sequence with one more item are the rows of the sequence
/// followed by the rows of the item.
pub proof fn lemma_flat_list_push(items: Seq<ItemView>, item: ItemView)
    ensures
        flat_list(items.push(item)) == flat_list(items) + flat(item),
{
    let parts = Seq::new(items.len(), |i: int| flat(items[i]));
    let more = Seq::new(items.push(item).len(), |i: int| flat(items.push(item)[i]));
    assert(more =~= parts.push(flat(item)));
    parts.lemma_flatten_push(flat(item));
}

impl Clone for Item {
    fn clone(&self) -> (res: Self)
        ensures
            res@ == self@,
        decreases self,
    {
        proof {
            lemma_item_view(*self);
        }
        let res = match self {
            Item::Heading { range, content } => Item::Heading {
                range: range.clone(),
                content: content.clone(),
            },
            Item::HeadingEntry { range, content, children, expanded } => {
                let mut copy: Vec<Item> = Vec::new();
                let mut i: usize = 0;
                while i < children.len()
                    invariant
                        i <= children.len(),
                        copy.len() == i,
                        forall|k: int| 0 <= k < i ==> (#[trigger] copy[k])@ == children[k]@,
                        *self matches Item::HeadingEntry { children: held, .. } && held
                            == *children,
                    decreases children.len() - i,
                {
                    copy.push(children[i].clone());
                    i += 1;
                }
                assert(item_views(copy@) =~= item_views(children@));
                Item::HeadingEntry {
                    range: range.clone(),
                    content: content.clone(),
                    children: copy,
                    expanded: *expanded,
                }
            },
        };
        proof {
            lemma_item_view(res);
        }
        res
    }
}

impl Item {
    /// The range of the item.
    pub fn get_range(&self) -> (range: &Range<usize>)
        ensures
            *range == self@.range(),
    {
        match self {
            Item::Heading { range, .. } => range,
            Item::HeadingEntry { range, .. } => range,
        }
    }

    /// Whether the range of the item holds the index.
    pub fn contains_index(&self, index: usize) -> (b: bool)
        ensures
            b == self@.contains_index(index),
    {
        let range = self.get_range();
        range.start <= index && index < range.end
    }
}

/// Flattens an item into the rows that it takes in the outline.
pub fn flatten(item: &Item) -> (rows: Vec<Item>)
    ensures
        item_views(rows@) == flat(item@),
    decreases item,
{
    let mut rows: Vec<Item> = Vec::new();
    rows.push(item.clone());
    assert(item_views(rows@) =~= seq![item@]);
    proof {
        lemma_item_view(*item);
        lemma_flat(item@);
    }
    match item {
        Item::HeadingEntry { expanded: true, children, .. } => {
            let ghost views = item_views(children@);
            assert(flat_list(views.take(0)) =~= Seq::empty());
            let mut i: usize = 0;
            while i < children.len()
                invariant
                    i <= children.len(),
                    views == item_views(children@),
                    *item matches Item::HeadingEntry { children: held, .. } && held == *children,
                    item_views(rows@) == seq![item@] + flat_list(views.take(i as int)),
                decreases children.len() - i,
            {
                let ghost before = item_views(rows@);
                let mut sub = flatten(&children[i]);
                let ghost added = item_views(sub@);
                rows.append(&mut sub);
                proof {
                    assert(item_views(rows@) =~= before + added);
                    assert(views.take(i + 1) =~= views.take(i as int).push(views[i as int]));
                    lemma_flat_list_push(views.take(i as int), views[i as int]);
                }
                i += 1;
            }
            assert(views.take(i as int) =~= views);
        },
        _ => {},
    }
    rows
}

/// The rows of a list of items, one item after the other.
pub fn flatten_list(items: &Vec<Item>) -> (rows: Vec<Item>)
    ensures
        item_views(rows@) == flat_list(item_views(items@)),
{
    let mut rows: Vec<Item> = Vec::new();
    let ghost views = item_views(items@);
    assert(item_views(rows@) =~= flat_list(views.take(0)));
    let mut i: usize = 0;
    while i < items.len()
        invariant
            i <= items.len(),
            views == item_views(items@),
            item_views(rows@) == flat_list(views.take(i as int)),
        decreases items.len() - i,
    {
        let ghost before = item_views(rows@);
        let mut sub = flatten(&items[i]);
        let ghost added = item_views(sub@);
        rows.append(&mut sub);
        proof {
            assert(item_views(rows@) =~= before + added);
            assert(views.take(i + 1) =~= views.take(i as int).push(views[i as int]));
            lemma_flat_list_push(views.take(i as int), views[i as int]);
        }
        i += 1;
    }
    assert(views.take(i as int) =~= views);
    rows
}

/// Laying out the rows of an outline.
pub trait Flatten {
    /// The rows of the outline.
    spec fn rows(&self) -> Seq<ItemView>;

    /// The rows of the outline, one item after the other, the items below an
    /// expanded item after that item.
    fn flatten(&self) -> (rows: Vec<Item>)
        ensures
            item_views(rows@) == self.rows(),
    ;
}

impl Flatten for Vec<Item> {
    open spec fn rows(&self) -> Seq<ItemView> {
        flat_list(item_views(self@))
    }

    fn flatten(&self) -> (rows: Vec<Item>) {
        flatten_list(self)
    }
}

/// The first row whose range holds the index, with its place among the rows.
pub open spec fn first_holding(rows: Seq<ItemView>, index: usize, from: int) -> Option<
    (usize, ItemView),
>
    decreases rows.len() - from,
{
    if from < 0 || from >= rows.len() {
        None
    } else if rows[from].contains_index(index) {
        Some((from as usize, rows[from]))
    } else {
        first_holding(rows, index, from + 1)
    }
}

/// Finding the row that shows where a node of the note belongs.
pub trait FindItem {
    /// The rows to look through.
    spec fn rows(&self) -> Seq<ItemView>;

    /// The first row of the outline whose range holds the index, with its
    /// place among the rows.
    fn find_item(&self, index: usize) -> (found: Option<(usize, Item)>)
        ensures
            match first_holding(self.rows(), index, 0) {
                Some((place, row)) => found matches Some((at, item)) && at == place && item@
                    == row,
                None => found is None,
            },
    ;
}

impl FindItem for Vec<Item> {
    open spec fn rows(&self) -> Seq<ItemView> {
        flat_list(item_views(self@))
    }

    fn find_item(&self, index: usize) -> (found: Option<(usize, Item)>) {
        let rows = flatten_list(self);
        let ghost views = item_views(rows@);
        let mut i: usize = 0;
        while i < rows.len()
            invariant
                i <= rows.len(),
                views == item_views(rows@),
                views == flat_list(item_views(self@)),
                first_holding(views, index, 0) == first_holding(views, index, i as int),
            decreases rows.len() - i,
        {
            if rows[i].contains_index(index) {
                assert(views[i as int] == rows[i as int]@);
                return Some((i, rows[i].clone()));
            }
            assert(views[i as int] == rows[i as int]@);
            i += 1;
        }
        None
    }
}

} // verus!
