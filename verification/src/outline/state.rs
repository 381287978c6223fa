use crate::list_state::ListState;
use crate::markdown::node::{plain_text, trees, Block, HeadingLevel, MarkdownNode, Node, Tree};
use crate::outline::item::{
    first_holding, flat_list, flatten_list, item_views, lemma_item_view, FindItem, Item, ItemView,
};
use std::ops::Range;
use vstd::prelude::*;
use vstd::std_specs::convert::FromSpecImpl;

verus! {

/// A heading of a note: its place among the nodes of the note, its level and
/// its text.
#[derive(Debug, PartialEq)]
pub struct Heading {
    pub index: usize,
    pub level: HeadingLevel,
    pub content: String,
}

/// What a [`Heading`] stands for.
pub struct HeadingView {
    pub index: usize,
    pub level: HeadingLevel,
    pub content: Seq<char>,
}

impl View for Heading {
    type V = HeadingView;

    open spec fn view(&self) -> HeadingView {
        HeadingView { index: self.index, level: self.level, content: self.content@ }
    }
}

/// What a sequence of headings stands for.
pub open spec fn heading_views(headings: Seq<Heading>) -> Seq<HeadingView> {
    Seq::new(headings.len(), |i: int| headings[i]@)
}

/// A heading with the headings below it.
#[derive(Debug, PartialEq)]
pub struct HeadingEntry {
    pub range: Range<usize>,
    pub level: HeadingLevel,
    pub content: String,
    pub children: Vec<HeadingEntry>,
}

/// What a [`HeadingEntry`] stands for.
pub struct EntryView {
    pub range: Range<usize>,
    pub level: HeadingLevel,
    pub content: Seq<char>,
    pub children: Seq<EntryView>,
}

/// What a heading entry stands for.
pub open spec fn entry_view(entry: HeadingEntry) -> EntryView
    decreases entry,
{
    EntryView {
        range: entry.range,
        level: entry.level,
        content: entry.content@,
        children: Seq::new(
            entry.children.len() as nat,
            |i: int|
                if 0 <= i < entry.children.len() {
                    entry_view(entry.children[i])
                } else {
                    arbitrary()
                },
        ),
    }
}

impl View for HeadingEntry {
    type V = EntryView;

    open spec fn view(&self) -> EntryView {
        entry_view(*self)
    }
}

/// What a sequence of heading entries stands for.
pub open spec fn entry_views(entries: Seq<HeadingEntry>) -> Seq<EntryView> {
    Seq::new(entries.len(), |i: int| entries[i]@)
}

/// The children of an entry's view are the views of its children.
pub proof fn lemma_entry_view(entry: HeadingEntry)
    ensures
        entry@ == (EntryView {
            range: entry.range,
            level: entry.level,
            content: entry.content@,
            children: entry_views(entry.children@),
        }),
{
    assert(entry@.children =~= entry_views(entry.children@));
}

/// The first heading, from place `from` on, whose level is `rank` or higher in
/// rank (a smaller or equal number); the number of headings where there is
/// none.
pub open spec fn next_not_below(headings: Seq<HeadingView>, from: int, rank: int) -> int
    decreases headings.len() - from,
{
    if from < 0 || from >= headings.len() {
        headings.len() as int
    } else if headings[from].level.spec_number() <= rank {
        from
    } else {
        next_not_below(headings, from + 1, rank)
    }
}

/// The search for the next heading goes forward, stays within the headings, and
/// passes only headings of a lower rank.
pub proof fn lemma_next_not_below(headings: Seq<HeadingView>, from: int, rank: int)
    requires
        0 <= from <= headings.len(),
    ensures
        from <= next_not_below(headings, from, rank) <= headings.len(),
        forall|j: int|
            from <= j < next_not_below(headings, from, rank) ==> (
            #[trigger] headings[j]).level.spec_number() > rank,
        next_not_below(headings, from, rank) < headings.len() ==> headings[next_not_below(
            headings,
            from,
            rank,
        )].level.spec_number() <= rank,
    decreases headings.len() - from,
{
    if from < headings.len() && headings[from].level.spec_number() > rank {
        lemma_next_not_below(headings, from + 1, rank);
    }
}

/// A search that starts among headings of a lower rank ends where the search
/// from behind them ends.
pub proof fn lemma_next_skips(headings: Seq<HeadingView>, from: int, to: int, rank: int)
    requires
        0 <= from <= to <= headings.len(),
        forall|j: int| from <= j < to ==> (#[trigger] headings[j]).level.spec_number() > rank,
    ensures
        next_not_below(headings, from, rank) == next_not_below(headings, to, rank),
    decreases to - from,
{
    if from < to {
        lemma_next_skips(headings, from + 1, to, rank);
    }
}

/// The outline of the headings from place `from` up to place `to`: the first
/// heading with the headings below it, which reach up to the next heading of
/// its own or a higher rank, then the outline of what follows.
///
/// The range of an entry runs from the place of its heading among the nodes of
/// the note up to the place of the next heading, or up to `max_end` for the
/// last heading.
pub open spec fn outline(headings: Seq<HeadingView>, from: int, to: int, max_end: usize) -> Seq<
    EntryView,
>
    decreases to - from,
    via outline_decreases
{
    if from < 0 || from >= to || to > headings.len() {
        Seq::empty()
    } else {
        let heading = headings[from];
        let end = next_not_below(headings, from + 1, heading.level.spec_number());
        let stop = if end <= to {
            end
        } else {
            to
        };
        let range_end = if from + 1 < headings.len() {
            headings[from + 1].index
        } else {
            max_end
        };
        seq![
            EntryView {
                range: Range { start: heading.index, end: range_end },
                level: heading.level,
                content: heading.content,
                children: outline(headings, from + 1, stop, max_end),
            },
        ] + outline(headings, stop, to, max_end)
    }
}

#[via_fn]
proof fn outline_decreases(headings: Seq<HeadingView>, from: int, to: int, max_end: usize) {
    if !(from < 0 || from >= to || to > headings.len()) {
        lemma_next_not_below(headings, from + 1, headings[from].level.spec_number());
    }
}

/// Where the outline below a heading of the given level ends: at the next
/// heading of that or a higher rank; at the end of the headings where no level
/// is given.
pub open spec fn outline_end(headings: Seq<HeadingView>, from: int, parent: Option<HeadingLevel>) -> int {
    match parent {
        Some(level) => next_not_below(headings, from, level.spec_number()),
        None => headings.len() as int,
    }
}

/// Copies a level.
fn level_of(heading: &Heading) -> (level: HeadingLevel)
    ensures
        level == heading.level,
{
    heading.level
}

/// Builds the outline of the headings from place `pos` on, below a heading of
/// the level `parent_level`, and moves `pos` behind the headings that it took.
pub fn build_outline_tree_rec(
    headings: &Vec<Heading>,
    pos: &mut usize,
    parent_level: Option<HeadingLevel>,
    max_end: usize,
) -> (result: Vec<HeadingEntry>)
    requires
        *old(pos) <= headings.len(),
    ensures
        *final(pos) == outline_end(heading_views(headings@), *old(pos) as int, parent_level),
        *old(pos) <= *final(pos) <= headings.len(),
        entry_views(result@) == outline(
            heading_views(headings@),
            *old(pos) as int,
            *final(pos) as int,
            max_end,
        ),
    decreases headings.len() - *old(pos),
{
    let ghost views = heading_views(headings@);
    let ghost start = *pos as int;
    let ghost to = outline_end(views, start, parent_level);
    proof {
        if parent_level is Some {
            lemma_next_not_below(views, start, parent_level->0.spec_number());
        }
    }
    let mut result: Vec<HeadingEntry> = Vec::new();
    assert(entry_views(result@) =~= Seq::<EntryView>::empty());
    let ghost done = Seq::<EntryView>::empty();
    while *pos < headings.len()
        invariant
            start == *old(pos),
            start <= *pos <= to <= headings.len(),
            views == heading_views(headings@),
            to == outline_end(views, start, parent_level),
            to == outline_end(views, *pos as int, parent_level),
            done == entry_views(result@),
            outline(views, start, to, max_end) == done + outline(views, *pos as int, to, max_end),
        ensures
            *pos == to,
            start <= *pos <= headings.len(),
            done == entry_views(result@),
            outline(views, start, to, max_end) == done,
        decreases headings.len() - *pos,
    {
        let rank = headings[*pos].level.number();
        assert(views[*pos as int] == headings[*pos as int]@);
        let stops = match parent_level {
            Some(parent) => rank <= parent.number(),
            None => false,
        };
        if stops {
            assert(*pos == to);
            assert(outline(views, *pos as int, to, max_end) =~= Seq::<EntryView>::empty());
            assert(done + Seq::<EntryView>::empty() =~= done);
            break;
        }
        let from = *pos;
        assert(from < to) by {
            if parent_level is Some {
                lemma_next_not_below(views, from as int, parent_level->0.spec_number());
            }
        }
        *pos = *pos + 1;
        let level = level_of(&headings[from]);
        let range_end = if *pos < headings.len() {
            assert(views[*pos as int] == headings[*pos as int]@);
            headings[*pos].index
        } else {
            max_end
        };
        let ghost end = next_not_below(views, from + 1, rank as int);
        proof {
            lemma_next_not_below(views, from + 1, rank as int);
            if parent_level is Some {
                let above = parent_level->0.spec_number();
                lemma_next_not_below(views, from as int, above);
                lemma_next_not_below(views, end, above);
                lemma_next_skips(views, from as int, end, above);
            }
            assert(end <= to);
        }
        let goes_down = *pos < headings.len() && headings[*pos].level.number() > rank;
        let children = if goes_down {
            build_outline_tree_rec(headings, pos, Some(level), max_end)
        } else {
            assert(end == from + 1);
            assert(outline(views, from + 1, end, max_end) =~= Seq::<EntryView>::empty());
            let children: Vec<HeadingEntry> = Vec::new();
            assert(entry_views(children@) =~= Seq::<EntryView>::empty());
            children
        };
        assert(*pos == end);
        let entry = HeadingEntry {
            range: Range { start: headings[from].index, end: range_end },
            level,
            content: headings[from].content.clone(),
            children,
        };
        proof {
            lemma_entry_view(entry);
            let first = EntryView {
                range: Range { start: views[from as int].index, end: range_end },
                level: views[from as int].level,
                content: views[from as int].content,
                children: outline(views, from + 1, end, max_end),
            };
            assert(entry@ == first);
            assert(outline(views, from as int, to, max_end) == seq![first] + outline(
                views,
                end,
                to,
                max_end,
            ));
            assert(done + (seq![first] + outline(views, end, to, max_end)) =~= done.push(first)
                + outline(views, end, to, max_end));
            done = done.push(first);
        }
        result.push(entry);
        assert(entry_views(result@) =~= done);
    }
    proof {
        if *pos >= headings.len() {
            assert(*pos == to);
            assert(outline(views, *pos as int, to, max_end) =~= Seq::<EntryView>::empty());
            assert(done + Seq::<EntryView>::empty() =~= done);
        }
    }
    result
}

/// Builds the outline of the headings of a note: each heading with the
/// headings below it. `max_end` is the number of nodes of the note.
pub fn build_outline_tree(headings: &Vec<Heading>, max_end: usize) -> (result: Vec<HeadingEntry>)
    ensures
        entry_views(result@) == outline(
            heading_views(headings@),
            0,
            headings.len() as int,
            max_end,
        ),
{
    let mut pos: usize = 0;
    build_outline_tree_rec(headings, &mut pos, None, max_end)
}

/// The item that a heading entry becomes: a heading where nothing stands below
/// it, else a collapsed entry of the items that its children become.
pub open spec fn entry_item(entry: EntryView) -> ItemView
    decreases entry,
{
    if entry.children.len() == 0 {
        ItemView::Heading { range: entry.range, content: entry.content }
    } else {
        ItemView::HeadingEntry {
            range: entry.range,
            content: entry.content,
            children: Seq::new(
                entry.children.len(),
                |i: int|
                    if 0 <= i < entry.children.len() {
                        entry_item(entry.children[i])
                    } else {
                        arbitrary()
                    },
            ),
            expanded: false,
        }
    }
}

/// The items that a sequence of heading entries becomes.
pub open spec fn entry_items(entries: Seq<EntryView>) -> Seq<ItemView> {
    Seq::new(entries.len(), |i: int| entry_item(entries[i]))
}

impl Item {
    /// The item that a heading entry becomes.
    pub fn from_entry(entry: &HeadingEntry) -> (item: Item)
        ensures
            item@ == entry_item(entry@),
        decreases entry,
    {
        proof {
            lemma_entry_view(*entry);
        }
        let item = if entry.children.len() == 0 {
            Item::Heading { range: entry.range.clone(), content: entry.content.clone() }
        } else {
            let mut children: Vec<Item> = Vec::new();
            let mut i: usize = 0;
            while i < entry.children.len()
                invariant
                    i <= entry.children.len(),
                    children.len() == i,
                    forall|k: int|
                        0 <= k < i ==> (#[trigger] children[k])@ == entry_item(
                            entry.children[k]@,
                        ),
                decreases entry.children.len() - i,
            {
                children.push(Item::from_entry(&entry.children[i]));
                i += 1;
            }
            assert(item_views(children@) =~= entry_item(entry@)->children);
            Item::HeadingEntry {
                range: entry.range.clone(),
                content: entry.content.clone(),
                children,
                expanded: false,
            }
        };
        proof {
            lemma_item_view(item);
        }
        item
    }
}

impl From<HeadingEntry> for Item {
    fn from(value: HeadingEntry) -> (item: Self)
        ensures
            item@ == entry_item(value@),
    {
        Item::from_entry(&value)
    }
}

impl FromSpecImpl<HeadingEntry> for Item {
    open spec fn obeys_from_spec() -> bool {
        false
    }

    open spec fn from_spec(value: HeadingEntry) -> Self {
        arbitrary()
    }
}

/// The headings among the first `count` nodes of a note, each with its place
/// among the nodes.
pub open spec fn headings_of(nodes: Seq<Tree>, count: int) -> Seq<HeadingView>
    decreases count,
{
    if count <= 0 || count > nodes.len() {
        Seq::empty()
    } else {
        let before = headings_of(nodes, count - 1);
        match nodes[count - 1].block {
            Block::Heading(level) => before.push(
                HeadingView {
                    index: (count - 1) as usize,
                    level,
                    content: plain_text(nodes[count - 1].text),
                },
            ),
            _ => before,
        }
    }
}

/// The headings among the nodes of a note.
pub fn to_headings(nodes: &Vec<Node>) -> (headings: Vec<Heading>)
    ensures
        heading_views(headings@) == headings_of(trees(nodes@), nodes.len() as int),
{
    let mut headings: Vec<Heading> = Vec::new();
    assert(heading_views(headings@) =~= headings_of(trees(nodes@), 0));
    let mut index: usize = 0;
    while index < nodes.len()
        invariant
            index <= nodes.len(),
            heading_views(headings@) == headings_of(trees(nodes@), index as int),
        decreases nodes.len() - index,
    {
        let ghost before = heading_views(headings@);
        proof {
            crate::markdown::node::lemma_view_children(nodes[index as int]);
            assert(trees(nodes@)[index as int] == nodes[index as int]@);
        }
        match &nodes[index].markdown_node {
            MarkdownNode::Heading { level, text } => {
                headings.push(Heading { index, level: *level, content: text.content() });
                assert(heading_views(headings@) =~= before.push(headings@.last()@));
            },
            _ => {},
        }
        index += 1;
    }
    headings
}

/// The items of the outline of a list of headings.
pub fn to_items(headings: &Vec<Heading>, max_end: usize) -> (items: Vec<Item>)
    ensures
        item_views(items@) == entry_items(
            outline(heading_views(headings@), 0, headings.len() as int, max_end),
        ),
{
    let entries = build_outline_tree(headings, max_end);
    let mut items: Vec<Item> = Vec::new();
    let mut i: usize = 0;
    while i < entries.len()
        invariant
            i <= entries.len(),
            items.len() == i,
            forall|k: int| 0 <= k < i ==> (#[trigger] items[k])@ == entry_item(entries[k]@),
        decreases entries.len() - i,
    {
        items.push(Item::from_entry(&entries[i]));
        i += 1;
    }
    assert(item_views(items@) =~= entry_items(entry_views(entries@)));
    items
}

/// An item with every entry in it expanded, or every entry collapsed.
pub open spec fn all_expanded(item: ItemView, expanded: bool) -> ItemView
    decreases item,
{
    match item {
        ItemView::HeadingEntry { range, content, children, .. } => ItemView::HeadingEntry {
            range,
            content,
            children: Seq::new(
                children.len(),
                |i: int|
                    if 0 <= i < children.len() {
                        all_expanded(children[i], expanded)
                    } else {
                        arbitrary()
                    },
            ),
            expanded,
        },
        ItemView::Heading { .. } => item,
    }
}

/// A sequence of items with every entry expanded, or every entry collapsed.
pub open spec fn all_expanded_list(items: Seq<ItemView>, expanded: bool) -> Seq<ItemView> {
    Seq::new(items.len(), |i: int| all_expanded(items[i], expanded))
}

/// An item after the entries with the given range have been toggled, where
/// `should_toggle` says so: such an entry, wherever it stands in the item, is
/// expanded if it was collapsed and collapsed if it was expanded.
pub open spec fn toggled(item: ItemView, target: Range<usize>, should_toggle: bool) -> ItemView
    decreases item,
{
    match item {
        ItemView::HeadingEntry { range, content, children, expanded } => ItemView::HeadingEntry {
            range,
            content,
            children: Seq::new(
                children.len(),
                |i: int|
                    if 0 <= i < children.len() {
                        toggled(children[i], target, should_toggle)
                    } else {
                        arbitrary()
                    },
            ),
            expanded: if range == target && should_toggle {
                !expanded
            } else {
                expanded
            },
        },
        ItemView::Heading { .. } => item,
    }
}

/// A sequence of items after the entries with the given range have been
/// toggled.
pub open spec fn toggled_list(items: Seq<ItemView>, target: Range<usize>, should_toggle: bool) -> Seq<
    ItemView,
> {
    Seq::new(items.len(), |i: int| toggled(items[i], target, should_toggle))
}

/// The state of the outline pane.
#[derive(Debug, PartialEq)]
pub struct OutlineState {
    pub selected_item_index: Option<usize>,
    pub max_heading_count: usize,
    pub items: Vec<Item>,
    pub open: bool,
    pub list_state: ListState,
    pub active: bool,
}

/// What an [`OutlineState`] stands for.
pub struct OutlineView {
    pub selected_item_index: Option<usize>,
    pub max_heading_count: usize,
    pub items: Seq<ItemView>,
    pub open: bool,
    pub list_state: ListState,
    pub active: bool,
}

impl View for OutlineState {
    type V = OutlineView;

    open spec fn view(&self) -> OutlineView {
        OutlineView {
            selected_item_index: self.selected_item_index,
            max_heading_count: self.max_heading_count,
            items: item_views(self.items@),
            open: self.open,
            list_state: self.list_state,
            active: self.active,
        }
    }
}

impl Default for OutlineState {
    fn default() -> (state: Self)
        ensures
            state@ == (OutlineView {
                selected_item_index: None,
                max_heading_count: 0,
                items: Seq::empty(),
                open: false,
                list_state: ListState { offset: 0, selected: None },
                active: false,
            }),
    {
        let state = OutlineState {
            selected_item_index: None,
            max_heading_count: 0,
            items: Vec::new(),
            open: false,
            list_state: ListState::default(),
            active: false,
        };
        assert(state@.items =~= Seq::<ItemView>::empty());
        state
    }
}

/// The place of the first row whose range holds the index.
pub open spec fn place_holding(items: Seq<ItemView>, index: usize) -> Option<usize> {
    match first_holding(flat_list(items), index, 0) {
        Some((place, _)) => Some(place),
        None => None,
    }
}

/// The items of the outline of the nodes of a note, every entry collapsed.
pub open spec fn outline_items(nodes: Seq<Tree>) -> Seq<ItemView> {
    entry_items(
        outline(
            headings_of(nodes, nodes.len() as int),
            0,
            headings_of(nodes, nodes.len() as int).len() as int,
            nodes.len() as usize,
        ),
    )
}

impl OutlineState {
    /// The outline of the nodes of a note: the row that holds the node at
    /// `index` is under the cursor, and every entry is expanded.
    pub fn new(nodes: &Vec<Node>, index: usize, open: bool) -> (state: Self)
        ensures
            state@ == (OutlineView {
                selected_item_index: place_holding(outline_items(trees(nodes@)), index),
                max_heading_count: headings_of(trees(nodes@), nodes.len() as int).len() as usize,
                items: all_expanded_list(outline_items(trees(nodes@)), true),
                open,
                list_state: ListState {
                    offset: 0,
                    selected: place_holding(outline_items(trees(nodes@)), index),
                },
                active: false,
            }),
    {
        let headings = to_headings(nodes);
        let max_heading_count = headings.len();
        let state = OutlineState {
            open,
            max_heading_count,
            selected_item_index: None,
            items: to_items(&headings, nodes.len()),
            list_state: ListState::default(),
            active: false,
        };
        state.select_at(index).expand_all()
    }

    /// The state with the outline of other nodes, every entry expanded.
    pub fn set_nodes(self, nodes: &Vec<Node>) -> (state: Self)
        ensures
            state@ == (OutlineView {
                max_heading_count: headings_of(trees(nodes@), nodes.len() as int).len() as usize,
                items: all_expanded_list(outline_items(trees(nodes@)), true),
                ..self@
            }),
    {
        let mut state = self;
        let headings = to_headings(nodes);
        state.max_heading_count = headings.len();
        state.items = to_items(&headings, nodes.len());
        state.expand_all()
    }

    /// The row under the cursor, if the cursor stands on a row.
    pub fn selected(&self) -> (item: Option<Item>)
        ensures
            match self.list_state.selected {
                Some(row) => if row < flat_list(self@.items).len() {
                    item is Some && item->0@ == flat_list(self@.items)[row as int]
                } else {
                    item is None
                },
                None => item is None,
            },
    {
        match self.list_state.selected() {
            Some(selected) => {
                let rows = flatten_list(&self.items);
                if selected < rows.len() {
                    assert(item_views(rows@)[selected as int] == rows[selected as int]@);
                    Some(rows[selected].clone())
                } else {
                    None
                }
            },
            None => None,
        }
    }

    /// The state with the pane marked active or not.
    pub fn set_active(self, active: bool) -> (state: Self)
        ensures
            state@ == (OutlineView { active, ..self@ }),
    {
        let mut state = self;
        state.active = active;
        state
    }

    /// The state with the pane opened if it was closed and closed if it was
    /// open.
    pub fn toggle(self) -> (state: Self)
        ensures
            state@ == (OutlineView { open: !self.open, ..self@ }),
    {
        let mut state = self;
        state.open = !state.open;
        state
    }

    /// The state with the pane open.
    pub fn open(self) -> (state: Self)
        ensures
            state@ == (OutlineView { open: true, ..self@ }),
    {
        let mut state = self;
        state.open = true;
        state
    }

    /// The state with the pane closed.
    pub fn close(self) -> (state: Self)
        ensures
            state@ == (OutlineView { open: false, ..self@ }),
    {
        let mut state = self;
        state.open = false;
        state
    }

    /// Toggles the entries with the given range in an item, where
    /// `should_toggle` says so.
    pub fn toggle_item_in_tree(item: &Item, target_range: &Range<usize>, should_toggle: bool) -> (res:
        Item)
        ensures
            res@ == toggled(item@, *target_range, should_toggle),
        decreases item,
    {
        proof {
            lemma_item_view(*item);
        }
        let res = match item {
            Item::HeadingEntry { range, content, expanded, children } => {
                let same = range.start == target_range.start && range.end == target_range.end;
                let expanded = if same && should_toggle {
                    !*expanded
                } else {
                    *expanded
                };
                let mut items: Vec<Item> = Vec::new();
                let mut i: usize = 0;
                while i < children.len()
                    invariant
                        i <= children.len(),
                        items.len() == i,
                        forall|k: int|
                            0 <= k < i ==> (#[trigger] items[k])@ == toggled(
                                children[k]@,
                                *target_range,
                                should_toggle,
                            ),
                        *item matches Item::HeadingEntry { children: held, .. } && held
                            == *children,
                    decreases children.len() - i,
                {
                    items.push(
                        OutlineState::toggle_item_in_tree(&children[i], target_range, should_toggle),
                    );
                    i += 1;
                }
                assert(item_views(items@) =~= toggled(item@, *target_range, should_toggle)->children);
                Item::HeadingEntry {
                    range: range.clone(),
                    content: content.clone(),
                    expanded,
                    children: items,
                }
            },
            Item::Heading { range, content } => Item::Heading {
                range: range.clone(),
                content: content.clone(),
            },
        };
        proof {
            lemma_item_view(res);
        }
        res
    }

    /// Expands or collapses the entry under the cursor; the first row counts
    /// where the cursor stands on none.
    pub fn toggle_item(self) -> (state: Self)
        ensures
            state@ == ({
                let row: int = match self.list_state.selected {
                    Some(row) => row as int,
                    None => 0,
                };
                let rows = flat_list(self@.items);
                if row < rows.len() && rows[row] is HeadingEntry {
                    OutlineView {
                        items: toggled_list(self@.items, rows[row].range(), true),
                        ..self@
                    }
                } else {
                    self@
                }
            }),
    {
        let mut state = self;
        let index = match state.list_state.selected() {
            Some(row) => row,
            None => 0,
        };
        let rows = flatten_list(&state.items);
        if index < rows.len() {
            proof {
                lemma_item_view(rows[index as int]);
                assert(item_views(rows@)[index as int] == rows[index as int]@);
            }
            match &rows[index] {
                Item::HeadingEntry { range, .. } => {
                    let mut items: Vec<Item> = Vec::new();
                    let mut i: usize = 0;
                    while i < state.items.len()
                        invariant
                            i <= state.items.len(),
                            items.len() == i,
                            forall|k: int|
                                0 <= k < i ==> (#[trigger] items[k])@ == toggled(
                                    state.items[k]@,
                                    *range,
                                    true,
                                ),
                        decreases state.items.len() - i,
                    {
                        items.push(OutlineState::toggle_item_in_tree(&state.items[i], range, true));
                        i += 1;
                    }
                    assert(item_views(items@) =~= toggled_list(
                        item_views(state.items@),
                        *range,
                        true,
                    ));
                    state.items = items;
                },
                _ => {},
            }
        }
        state
    }

    /// Puts the cursor on the first row whose range holds the index, and
    /// remembers that row; on no row where none holds it.
    pub fn select_at(self, index: usize) -> (state: Self)
        ensures
            state@ == (OutlineView {
                selected_item_index: place_holding(self@.items, index),
                list_state: ListState {
                    selected: place_holding(self@.items, index),
                    offset: if place_holding(self@.items, index) is None {
                        0
                    } else {
                        self.list_state.offset
                    },
                },
                ..self@
            }),
    {
        let mut state = self;
        let selected_item_index = match state.items.find_item(index) {
            Some((place, _)) => Some(place),
            None => None,
        };
        state.selected_item_index = selected_item_index;
        state.list_state.select(selected_item_index);
        state
    }

    /// The items with every entry expanded, or every entry collapsed.
    pub fn expanded_to_all_items(items: &Vec<Item>, expanded: bool) -> (res: Vec<Item>)
        ensures
            item_views(res@) == all_expanded_list(item_views(items@), expanded),
        decreases items,
    {
        let mut res: Vec<Item> = Vec::new();
        let mut i: usize = 0;
        while i < items.len()
            invariant
                i <= items.len(),
                res.len() == i,
                forall|k: int|
                    0 <= k < i ==> (#[trigger] res[k])@ == all_expanded(items[k]@, expanded),
            decreases items.len() - i,
        {
            proof {
                lemma_item_view(items[i as int]);
            }
            let item = match &items[i] {
                Item::HeadingEntry { range, content, children, .. } => {
                    let below = OutlineState::expanded_to_all_items(children, expanded);
                    assert(item_views(below@) =~= all_expanded(items[i as int]@, expanded)->children);
                    Item::HeadingEntry {
                        range: range.clone(),
                        content: content.clone(),
                        children: below,
                        expanded,
                    }
                },
                Item::Heading { range, content } => Item::Heading {
                    range: range.clone(),
                    content: content.clone(),
                },
            };
            proof {
                lemma_item_view(item);
            }
            res.push(item);
            i += 1;
        }
        assert(item_views(res@) =~= all_expanded_list(item_views(items@), expanded));
        res
    }

    /// The state with every entry expanded.
    pub fn expand_all(self) -> (state: Self)
        ensures
            state@ == (OutlineView { items: all_expanded_list(self@.items, true), ..self@ }),
    {
        let mut state = self;
        state.items = OutlineState::expanded_to_all_items(&state.items, true);
        state
    }

    /// The state with every entry collapsed.
    pub fn collapse_all(self) -> (state: Self)
        ensures
            state@ == (OutlineView { items: all_expanded_list(self@.items, false), ..self@ }),
    {
        let mut state = self;
        state.items = OutlineState::expanded_to_all_items(&state.items, false);
        state
    }

    /// Whether the pane is open.
    pub fn is_open(&self) -> (open: bool)
        ensures
            open == self.open,
    {
        self.open
    }

    /// Moves the cursor `amount` rows down; it stops at the row of the last
    /// heading. A cursor that stood on no row stands on the first row.
    pub fn next(self, amount: usize) -> (state: Self)
        ensures
            state@ == (OutlineView {
                list_state: ListState {
                    selected: Some(
                        match self.list_state.selected {
                            Some(row) => crate::explorer::state::row_after(
                                row,
                                amount,
                                self.max_heading_count,
                            ),
                            None => 0,
                        },
                    ),
                    ..self.list_state
                },
                ..self@
            }),
    {
        let mut state = self;
        let last = if state.max_heading_count >= 1 {
            state.max_heading_count - 1
        } else {
            0
        };
        let index = match state.list_state.selected() {
            Some(row) => if row >= last {
                last
            } else if amount >= last - row {
                last
            } else {
                row + amount
            },
            None => 0,
        };
        state.list_state.select(Some(index));
        state
    }

    /// Moves the cursor `amount` rows up; it stops at the first row.
    pub fn previous(self, amount: usize) -> (state: Self)
        ensures
            state@ == (OutlineView {
                list_state: match self.list_state.selected {
                    Some(row) => ListState {
                        selected: Some(crate::explorer::state::row_before(row, amount)),
                        ..self.list_state
                    },
                    None => ListState { selected: None, offset: 0 },
                },
                ..self@
            }),
    {
        let mut state = self;
        let index = match state.list_state.selected() {
            Some(row) => Some(row.saturating_sub(amount)),
            None => None,
        };
        state.list_state.select(index);
        state
    }
}

} // verus!
