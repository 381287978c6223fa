use crate::list_state::{scrolled_down, scrolled_up, Scrollbar, ScrollbarState};
use crate::markdown::event::markdown_lexemes;
use crate::markdown::node::{lemma_view_children, trees, Node, Tree};
use crate::markdown::parser::{document, from_str};
use crate::note_editor::text_buffer::CursorMove;
use crate::text::{byte_slice, byte_tail, same_text, slice, tail};
use crate::text_counts::{is_space, space};
use std::ops::Range;
use vstd::prelude::*;
use vstd::string::StringExecFns;

verus! {

/// The mode of the note editor.
#[derive(Clone, Copy, Debug, PartialEq, Eq, Structural)]
pub enum Mode {
    Read,
    View,
    Edit,
}

impl Default for Mode {
    fn default() -> (mode: Self)
        ensures
            mode == Mode::Read,
    {
        Mode::Read
    }
}

impl Mode {
    /// The name of the mode as the editor shows it.
    pub fn label(&self) -> (label: &'static str)
        ensures
            label@ == match self {
                Mode::View => "VIEW"@,
                Mode::Edit => "EDIT"@,
                Mode::Read => "READ"@,
            },
    {
        match self {
            Mode::View => "VIEW",
            Mode::Edit => "EDIT",
            Mode::Read => "READ",
        }
    }
}

/// The state of a view that shows the text of a note and scrolls through it.
#[derive(Debug, PartialEq)]
pub struct MarkdownViewState {
    pub text: String,
    pub scrollbar: Scrollbar,
}

/// What a [`MarkdownViewState`] stands for.
pub struct MarkdownViewView {
    pub text: Seq<char>,
    pub scrollbar: Scrollbar,
}

impl View for MarkdownViewState {
    type V = MarkdownViewView;

    open spec fn view(&self) -> MarkdownViewView {
        MarkdownViewView { text: self.text@, scrollbar: self.scrollbar }
    }
}

impl MarkdownViewState {
    /// The view of a text, at the top.
    pub fn new(text: &str) -> (state: Self)
        ensures
            state@ == (MarkdownViewView {
                text: text@,
                scrollbar: Scrollbar {
                    state: ScrollbarState { content_length: 0, position: 0 },
                    position: 0,
                },
            }),
    {
        Self { text: text.to_owned(), scrollbar: Scrollbar::default() }
    }

    /// The lines of the text.
    pub fn get_lines(&self) -> (lines: Vec<String>)
        ensures
            crate::text::texts(lines@) == crate::text::text_lines(self.text@),
    {
        crate::text::lines(self.text.as_str())
    }

    /// The view `amount` rows up; it stops at the top.
    pub fn scroll_up(self, amount: usize) -> (state: Self)
        ensures
            state@ == (MarkdownViewView {
                scrollbar: Scrollbar {
                    state: ScrollbarState {
                        position: scrolled_up(self.scrollbar.position, amount),
                        ..self.scrollbar.state
                    },
                    position: scrolled_up(self.scrollbar.position, amount),
                },
                ..self@
            }),
    {
        let scrollbar = self.scrollbar.scroll_up(amount);
        let mut state = self;
        state.scrollbar = scrollbar;
        state
    }

    /// The view `amount` rows down.
    pub fn scroll_down(self, amount: usize) -> (state: Self)
        ensures
            state@ == (MarkdownViewView {
                scrollbar: Scrollbar {
                    state: ScrollbarState {
                        position: scrolled_down(self.scrollbar.position, amount),
                        ..self.scrollbar.state
                    },
                    position: scrolled_down(self.scrollbar.position, amount),
                },
                ..self@
            }),
    {
        let scrollbar = self.scrollbar.scroll_down(amount);
        let mut state = self;
        state.scrollbar = scrollbar;
        state
    }

    /// The view with another text.
    pub fn set_text(self, text: String) -> (state: Self)
        ensures
            state@ == (MarkdownViewView { text: text@, ..self@ }),
    {
        let mut state = self;
        state.text = text;
        state
    }

    /// The view at the top again, with an empty scrollbar.
    pub fn reset_scrollbar(self) -> (state: Self)
        ensures
            state@ == (MarkdownViewView {
                scrollbar: Scrollbar {
                    state: ScrollbarState { content_length: 0, position: 0 },
                    position: 0,
                },
                ..self@
            }),
    {
        let mut state = self;
        state.scrollbar = Scrollbar::default();
        state
    }
}

/// What the editor asks of the text area that holds the text being edited.
#[derive(Debug, PartialEq)]
pub enum BufferAction {
    /// Move the cursor.
    Move(CursorMove),
    /// Take the given text in place of the text; the cursor stays where it
    /// stood, as far as the new text reaches.
    Load(String),
    /// Put the given text and a line feed before the text, and the cursor on
    /// the line behind the given text, in the column where it stood.
    Prepend(String),
    /// Delete the character before the cursor.
    Backspace,
}

/// What a [`BufferAction`] stands for.
pub enum ActionView {
    Move(CursorMove),
    Load(Seq<char>),
    Prepend(Seq<char>),
    Backspace,
}

impl View for BufferAction {
    type V = ActionView;

    open spec fn view(&self) -> ActionView {
        match self {
            BufferAction::Move(cursor_move) => ActionView::Move(*cursor_move),
            BufferAction::Load(text) => ActionView::Load(text@),
            BufferAction::Prepend(text) => ActionView::Prepend(text@),
            BufferAction::Backspace => ActionView::Backspace,
        }
    }
}

/// What a list of actions stands for.
pub open spec fn action_views(actions: Seq<BufferAction>) -> Seq<ActionView> {
    Seq::new(actions.len(), |i: int| actions[i]@)
}

/// The state of the note editor: the text of the note, its nodes, the node
/// that is being edited and what has changed.
#[derive(Debug, PartialEq)]
pub struct EditorState {
    pub mode: Mode,
    pub content: String,
    pub content_original: String,
    pub path: String,
    pub nodes: Vec<Node>,
    pub scrollbar: Scrollbar,
    /// The place, among the nodes, of the node that is being edited.
    pub current_row: usize,
    pub active: bool,
    /// Whether the text differs from the text that was loaded.
    pub modified: bool,
    /// Whether the text area holds changes that the text does not have yet.
    pub dirty: bool,
}

/// What an [`EditorState`] stands for.
pub struct EditorView {
    pub mode: Mode,
    pub content: Seq<char>,
    pub content_original: Seq<char>,
    pub path: Seq<char>,
    pub nodes: Seq<Tree>,
    pub scrollbar: Scrollbar,
    pub current_row: usize,
    pub active: bool,
    pub modified: bool,
    pub dirty: bool,
}

impl View for EditorState {
    type V = EditorView;

    open spec fn view(&self) -> EditorView {
        EditorView {
            mode: self.mode,
            content: self.content@,
            content_original: self.content_original@,
            path: self.path@,
            nodes: trees(self.nodes@),
            scrollbar: self.scrollbar,
            current_row: self.current_row,
            active: self.active,
            modified: self.modified,
            dirty: self.dirty,
        }
    }
}

/// Whether a text holds nothing but white space.
pub open spec fn blank(text: Seq<char>) -> bool {
    forall|i: int| 0 <= i < text.len() ==> is_space(#[trigger] text[i])
}

/// Whether a text holds nothing but white space.
pub fn is_blank(text: &str) -> (b: bool)
    ensures
        b == blank(text@),
{
    for c in iter: text.chars()
        invariant
            iter.seq() == text@,
            forall|i: int| 0 <= i < iter.index() ==> is_space(#[trigger] text@[i]),
    {
        if !space(c) {
            assert(!is_space(text@[iter.index() as int]));
            return false;
        }
    }
    true
}

impl EditorView {
    /// The source of the node that is being edited, where there is such a node
    /// and its range lies on characters of the text.
    pub open spec fn source(self) -> Option<Seq<char>> {
        if self.current_row < self.nodes.len() {
            byte_slice(
                self.content,
                self.nodes[self.current_row as int].range.start as int,
                self.nodes[self.current_row as int].range.end as int,
            )
        } else {
            None
        }
    }

    /// What loads the source of the node that is being edited into the text
    /// area: nothing, where there is no such source.
    pub open spec fn reload(self) -> Seq<ActionView> {
        match self.source() {
            Some(source) => seq![ActionView::Load(source)],
            None => Seq::empty(),
        }
    }

    /// The text of the note with the text of the text area in place of the
    /// node that is being edited, a line feed before and behind it: what stood
    /// before the node, but for the last byte, then the text of the text
    /// area, then what stood behind the node.
    pub open spec fn spliced(self, buffer: Seq<char>) -> Option<Seq<char>> {
        if self.current_row < self.nodes.len() {
            let range = self.nodes[self.current_row as int].range;
            let start: int = if range.start >= 1 {
                range.start - 1
            } else {
                0
            };
            match (byte_slice(self.content, 0, start), byte_tail(self.content, range.end as int)) {
                (Some(before), Some(behind)) => Some(before + "\n"@ + buffer + "\n"@ + behind),
                _ => None,
            }
        } else {
            None
        }
    }

    /// The state with another text: its nodes are those of the text.
    pub open spec fn with_text(self, content: Seq<char>) -> EditorView {
        EditorView { content, nodes: document(markdown_lexemes(content)), ..self }
    }

    /// The state after the text of the text area has been taken over into the
    /// text of the note, with what the text area is asked to do: where the
    /// text changes, the note is read anew and the node that is being edited
    /// is loaded again.
    pub open spec fn saved(self, buffer: Seq<char>) -> (EditorView, Seq<ActionView>) {
        match self.spliced(buffer) {
            Some(complete) => {
                let changed = if complete != self.content {
                    self.with_text(complete)
                } else {
                    self
                };
                (
                    EditorView { modified: changed.content != self.content_original, ..changed },
                    if complete != self.content {
                        changed.reload()
                    } else {
                        Seq::empty()
                    },
                )
            },
            None => (self, Seq::empty()),
        }
    }

    /// The state after pending changes of the text area, if there are any,
    /// have been taken over.
    pub open spec fn settled(self, buffer: Seq<char>) -> (EditorView, Seq<ActionView>) {
        if self.dirty {
            (EditorView { dirty: false, ..self.saved(buffer).0 }, self.saved(buffer).1)
        } else {
            (self, Seq::empty())
        }
    }

    /// The state after the cursor has moved up, with what the text area is
    /// asked to do: within the node the cursor moves up a line; from the first
    /// line the node before becomes the node that is being edited, the cursor
    /// at its end.
    pub open spec fn cursor_up(self, cursor_row: usize, buffer: Seq<char>) -> (
        EditorView,
        Seq<ActionView>,
    ) {
        if cursor_row == 0 {
            let (settled, actions) = self.settled(buffer);
            if settled.current_row == 0 {
                (settled, actions)
            } else {
                let moved = EditorView {
                    current_row: (settled.current_row - 1) as usize,
                    ..settled
                };
                (moved, actions + moved.reload() + seq![ActionView::Move(CursorMove::Bottom)])
            }
        } else {
            (self, seq![ActionView::Move(CursorMove::Up)])
        }
    }

    /// The state after the cursor has moved down, with what the text area is
    /// asked to do: within the node the cursor moves down a line; from the
    /// last line the node behind becomes the node that is being edited, the
    /// cursor at its start.
    pub open spec fn cursor_down(self, cursor_row: usize, lines: usize, buffer: Seq<char>) -> (
        EditorView,
        Seq<ActionView>,
    ) {
        if lines >= 1 && cursor_row < lines - 1 {
            (self, seq![ActionView::Move(CursorMove::Down)])
        } else {
            let (settled, actions) = self.settled(buffer);
            let last: int = if settled.nodes.len() >= 1 {
                settled.nodes.len() - 1
            } else {
                0
            };
            if settled.current_row == last {
                (settled, actions)
            } else {
                let moved = EditorView {
                    current_row: if settled.current_row + 1 <= last {
                        (settled.current_row + 1) as usize
                    } else {
                        last as usize
                    },
                    ..settled
                };
                (moved, actions + moved.reload() + seq![ActionView::Move(CursorMove::Top)])
            }
        }
    }

    /// The state after the character before the cursor has been deleted, with
    /// what the text area is asked to do: at the start of a node whose text is
    /// blank the text is taken over; at the start of another node but the
    /// first the node joins the node before it; anywhere else the text area
    /// deletes the character.
    pub open spec fn deleted(self, cursor: (usize, usize), buffer: Seq<char>) -> (
        EditorView,
        Seq<ActionView>,
    ) {
        if cursor.0 == 0 && cursor.1 == 0 && blank(buffer) {
            self.saved(buffer)
        } else if cursor.0 == 0 && cursor.1 == 0 && self.current_row != 0 {
            let row = self.current_row as int;
            if row < self.nodes.len() {
                let before = self.nodes[row - 1];
                match byte_slice(self.content, before.range.start as int, before.range.end as int) {
                    Some(source) => (
                        EditorView {
                            nodes: self.nodes.update(
                                row - 1,
                                Tree {
                                    range: Range {
                                        start: before.range.start,
                                        end: self.nodes[row].range.end,
                                    },
                                    ..before
                                },
                            ).remove(row),
                            current_row: (row - 1) as usize,
                            dirty: true,
                            ..self
                        },
                        seq![ActionView::Prepend(source)],
                    ),
                    None => (self, Seq::empty()),
                }
            } else {
                (self, Seq::empty())
            }
        } else {
            (EditorView { dirty: true, ..self }, seq![ActionView::Backspace])
        }
    }
}

/// Appends actions to actions.
fn extend(actions: &mut Vec<BufferAction>, more: Vec<BufferAction>)
    ensures
        action_views(final(actions)@) == action_views(old(actions)@) + action_views(more@),
{
    let mut more = more;
    let ghost added = action_views(more@);
    actions.append(&mut more);
    assert(action_views(actions@) =~= action_views(old(actions)@) + added);
}

/// One action.
fn one(action: BufferAction) -> (actions: Vec<BufferAction>)
    ensures
        action_views(actions@) == seq![action@],
{
    let mut actions: Vec<BufferAction> = Vec::new();
    actions.push(action);
    assert(action_views(actions@) =~= seq![action@]);
    actions
}

/// No action.
fn none() -> (actions: Vec<BufferAction>)
    ensures
        action_views(actions@) == Seq::<ActionView>::empty(),
{
    let actions: Vec<BufferAction> = Vec::new();
    assert(action_views(actions@) =~= Seq::<ActionView>::empty());
    actions
}

impl EditorState {
    /// The editor of a note with the given text, read and not yet changed.
    pub fn new(content: &str, path: String) -> (state: Self)
        ensures
            state@ == (EditorView {
                mode: Mode::Read,
                content: content@,
                content_original: content@,
                path: path@,
                nodes: document(markdown_lexemes(content@)),
                scrollbar: Scrollbar {
                    state: ScrollbarState { content_length: 0, position: 0 },
                    position: 0,
                },
                current_row: 0,
                active: false,
                modified: false,
                dirty: false,
            }),
    {
        Self {
            mode: Mode::Read,
            nodes: from_str(content),
            content_original: content.to_owned(),
            content: content.to_owned(),
            path,
            scrollbar: Scrollbar::default(),
            current_row: 0,
            active: false,
            modified: false,
            dirty: false,
        }
    }

    /// The text of the note.
    pub fn content(&self) -> (content: &str)
        ensures
            content@ == self.content@,
    {
        self.content.as_str()
    }

    /// Whether the note is being edited.
    pub fn is_editing(&self) -> (editing: bool)
        ensures
            editing == (self.mode == Mode::Edit),
    {
        match self.mode {
            Mode::Edit => true,
            _ => false,
        }
    }

    /// The mode of the editor.
    pub fn mode(&self) -> (mode: Mode)
        ensures
            mode == self.mode,
    {
        self.mode
    }

    /// The nodes of the note.
    pub fn nodes(&self) -> (nodes: &Vec<Node>)
        ensures
            *nodes == self.nodes,
    {
        &self.nodes
    }

    /// The scrollbar of the editor.
    pub fn scrollbar(&self) -> (scrollbar: &Scrollbar)
        ensures
            *scrollbar == self.scrollbar,
    {
        &self.scrollbar
    }

    /// Whether the editor is the active pane.
    pub fn active(&self) -> (active: bool)
        ensures
            active == self.active,
    {
        self.active
    }

    /// The source of the node that is being edited.
    pub fn source(&self) -> (source: Option<String>)
        ensures
            source is Some <==> self@.source() is Some,
            source is Some ==> source->0@ == self@.source()->0,
    {
        if self.current_row < self.nodes.len() {
            proof {
                lemma_view_children(self.nodes[self.current_row as int]);
                assert(trees(self.nodes@)[self.current_row as int]
                    == self.nodes[self.current_row as int]@);
            }
            let range = &self.nodes[self.current_row].source_range;
            slice(self.content.as_str(), range.start, range.end)
        } else {
            None
        }
    }

    /// What loads the source of the node that is being edited into the text
    /// area.
    pub fn update_text_buffer(&self) -> (actions: Vec<BufferAction>)
        ensures
            action_views(actions@) == self@.reload(),
    {
        match self.source() {
            Some(source) => one(BufferAction::Load(source)),
            None => none(),
        }
    }

    /// The editor with another text, read and not yet changed, with what loads
    /// the node that is being edited into the text area.
    pub fn set_content(self, content: &str) -> (res: (Self, Vec<BufferAction>))
        ensures
            res.0@ == (EditorView { content_original: content@, ..self@.with_text(content@) }),
            action_views(res.1@) == res.0@.reload(),
    {
        let mut state = self;
        state.nodes = from_str(content);
        state.content_original = content.to_owned();
        state.content = content.to_owned();
        let actions = state.update_text_buffer();
        (state, actions)
    }

    /// The editor of a note at another path.
    pub fn set_path(self, path: String) -> (state: Self)
        ensures
            state@ == (EditorView { path: path@, ..self@ }),
    {
        let mut state = self;
        state.path = path;
        state
    }

    /// The text of the note with the text of the text area in place of the node
    /// that is being edited.
    fn spliced(&self, buffer: &str) -> (complete: Option<String>)
        ensures
            complete is Some <==> self@.spliced(buffer@) is Some,
            complete is Some ==> complete->0@ == self@.spliced(buffer@)->0,
    {
        if self.current_row < self.nodes.len() {
            proof {
                lemma_view_children(self.nodes[self.current_row as int]);
                assert(trees(self.nodes@)[self.current_row as int]
                    == self.nodes[self.current_row as int]@);
            }
            let range = &self.nodes[self.current_row].source_range;
            let start = range.start.saturating_sub(1);
            match (slice(self.content.as_str(), 0, start), tail(self.content.as_str(), range.end)) {
                (Some(before), Some(behind)) => Some(
                    before.concat("\n").concat(buffer).concat("\n").concat(behind.as_str()),
                ),
                _ => None,
            }
        } else {
            None
        }
    }

    /// Takes the text of the text area over into the text of the note.
    pub fn intermediate_save(self, buffer: &str) -> (res: (Self, Vec<BufferAction>))
        ensures
            res.0@ == self@.saved(buffer@).0,
            action_views(res.1@) == self@.saved(buffer@).1,
    {
        let mut state = self;
        match state.spliced(buffer) {
            Some(complete) => {
                let mut actions = none();
                if !same_text(state.content.as_str(), complete.as_str()) {
                    state.nodes = from_str(complete.as_str());
                    state.content = complete;
                    actions = state.update_text_buffer();
                }
                state.modified = !same_text(
                    state.content.as_str(),
                    state.content_original.as_str(),
                );
                (state, actions)
            },
            None => (state, none()),
        }
    }

    /// Leaves the editing of a node: the text of the text area is taken over.
    pub fn exit_insert(self, buffer: &str) -> (res: (Self, Vec<BufferAction>))
        ensures
            res.0@ == self@.saved(buffer@).0,
            action_views(res.1@) == self@.saved(buffer@).1,
    {
        self.intermediate_save(buffer)
    }

    /// Takes pending changes of the text area over, if there are any.
    fn settle(self, buffer: &str) -> (res: (Self, Vec<BufferAction>))
        ensures
            res.0@ == self@.settled(buffer@).0,
            action_views(res.1@) == self@.settled(buffer@).1,
    {
        if self.dirty {
            let (mut state, actions) = self.intermediate_save(buffer);
            state.dirty = false;
            (state, actions)
        } else {
            (self, none())
        }
    }

    /// Deletes the character before the cursor.
    pub fn delete_char(self, cursor: (usize, usize), buffer: &str) -> (res: (
        Self,
        Vec<BufferAction>,
    ))
        ensures
            res.0@ == self@.deleted(cursor, buffer@).0,
            action_views(res.1@) == self@.deleted(cursor, buffer@).1,
    {
        let at_start = cursor.0 == 0 && cursor.1 == 0;
        if at_start && is_blank(buffer) {
            self.intermediate_save(buffer)
        } else if at_start && self.current_row != 0 {
            let mut state = self;
            let row = state.current_row;
            if row < state.nodes.len() {
                let ghost before = state@;
                proof {
                    lemma_view_children(state.nodes[row as int]);
                    lemma_view_children(state.nodes[row - 1]);
                    assert(before.nodes[row as int] == state.nodes[row as int]@);
                    assert(before.nodes[row - 1] == state.nodes[row - 1]@);
                }
                let end = state.nodes[row].source_range.end;
                let start = state.nodes[row - 1].source_range.start;
                let source = slice(
                    state.content.as_str(),
                    start,
                    state.nodes[row - 1].source_range.end,
                );
                match source {
                    Some(source) => {
                        let mut joined = state.nodes.remove(row - 1);
                        joined.source_range = Range { start, end };
                        proof {
                            lemma_view_children(joined);
                        }
                        state.nodes.insert(row - 1, joined);
                        state.nodes.remove(row);
                        state.current_row = row - 1;
                        state.dirty = true;
                        assert(trees(state.nodes@) =~= before.nodes.update(
                            row - 1,
                            Tree {
                                range: Range { start, end },
                                ..before.nodes[row - 1]
                            },
                        ).remove(row as int));
                        (state, one(BufferAction::Prepend(source)))
                    },
                    None => (state, none()),
                }
            } else {
                (state, none())
            }
        } else {
            let mut state = self;
            state.dirty = true;
            (state, one(BufferAction::Backspace))
        }
    }

    /// Marks the editor after the text area has taken an input: the text area
    /// holds changes where the input changed its text.
    pub fn edit(self, changed: bool) -> (state: Self)
        ensures
            state@ == (EditorView { dirty: self.dirty || changed, ..self@ }),
    {
        let mut state = self;
        if changed {
            state.dirty = true;
        }
        state
    }

    /// Moves the cursor up.
    pub fn cursor_up(self, cursor_row: usize, buffer: &str) -> (res: (Self, Vec<BufferAction>))
        ensures
            res.0@ == self@.cursor_up(cursor_row, buffer@).0,
            action_views(res.1@) == self@.cursor_up(cursor_row, buffer@).1,
    {
        if cursor_row == 0 {
            let (mut state, mut actions) = self.settle(buffer);
            if state.current_row == 0 {
                return (state, actions);
            }
            state.current_row = state.current_row - 1;
            extend(&mut actions, state.update_text_buffer());
            extend(&mut actions, one(BufferAction::Move(CursorMove::Bottom)));
            (state, actions)
        } else {
            (self, one(BufferAction::Move(CursorMove::Up)))
        }
    }

    /// Moves the cursor down.
    pub fn cursor_down(self, cursor_row: usize, lines: usize, buffer: &str) -> (res: (
        Self,
        Vec<BufferAction>,
    ))
        ensures
            res.0@ == self@.cursor_down(cursor_row, lines, buffer@).0,
            action_views(res.1@) == self@.cursor_down(cursor_row, lines, buffer@).1,
    {
        if lines >= 1 && cursor_row < lines - 1 {
            return (self, one(BufferAction::Move(CursorMove::Down)));
        }
        let (mut state, mut actions) = self.settle(buffer);
        let last = if state.nodes.len() >= 1 {
            state.nodes.len() - 1
        } else {
            0
        };
        if state.current_row == last {
            return (state, actions);
        }
        state.current_row = if state.current_row < last {
            state.current_row + 1
        } else {
            last
        };
        extend(&mut actions, state.update_text_buffer());
        extend(&mut actions, one(BufferAction::Move(CursorMove::Top)));
        (state, actions)
    }

    /// Marks the editor after an attempt to write the note: a note that was
    /// written is unchanged again.
    pub fn save(self, written: bool) -> (state: Self)
        ensures
            state@ == (EditorView { modified: self.modified && !written, ..self@ }),
    {
        let mut state = self;
        if state.modified && written {
            state.modified = false;
        }
        state
    }

    /// The editor `amount` rows up; it stops at the top.
    pub fn scroll_up(self, amount: usize) -> (state: Self)
        ensures
            state@ == (EditorView {
                scrollbar: Scrollbar {
                    state: ScrollbarState {
                        position: scrolled_up(self.scrollbar.position, amount),
                        ..self.scrollbar.state
                    },
                    position: scrolled_up(self.scrollbar.position, amount),
                },
                ..self@
            }),
    {
        let mut state = self;
        state.scrollbar = state.scrollbar.scroll_up(amount);
        state
    }

    /// The editor `amount` rows down.
    pub fn scroll_down(self, amount: usize) -> (state: Self)
        ensures
            state@ == (EditorView {
                scrollbar: Scrollbar {
                    state: ScrollbarState {
                        position: scrolled_down(self.scrollbar.position, amount),
                        ..self.scrollbar.state
                    },
                    position: scrolled_down(self.scrollbar.position, amount),
                },
                ..self@
            }),
    {
        let mut state = self;
        state.scrollbar = state.scrollbar.scroll_down(amount);
        state
    }

    /// The editor in another mode.
    pub fn set_mode(self, mode: Mode) -> (state: Self)
        ensures
            state@ == (EditorView { mode, ..self@ }),
    {
        let mut state = self;
        state.mode = mode;
        state
    }

    /// The editor marked active or not.
    pub fn set_active(self, active: bool) -> (state: Self)
        ensures
            state@ == (EditorView { active, ..self@ }),
    {
        let mut state = self;
        state.active = active;
        state
    }

    /// An editor without a note, in the mode of this one.
    pub fn reset(self) -> (state: Self)
        ensures
            state@ == (EditorView {
                mode: self.mode,
                content: Seq::empty(),
                content_original: Seq::empty(),
                path: Seq::empty(),
                nodes: Seq::empty(),
                scrollbar: Scrollbar {
                    state: ScrollbarState { content_length: 0, position: 0 },
                    position: 0,
                },
                current_row: 0,
                active: false,
                modified: false,
                dirty: false,
            }),
    {
        let state = EditorState {
            mode: self.mode,
            content: String::new(),
            content_original: String::new(),
            path: String::new(),
            nodes: Vec::new(),
            scrollbar: Scrollbar::default(),
            current_row: 0,
            active: false,
            modified: false,
            dirty: false,
        };
        assert(state@.nodes =~= Seq::<Tree>::empty());
        state
    }
}

impl Default for EditorState {
    fn default() -> (state: Self)
        ensures
            state@ == (EditorView {
                mode: Mode::Read,
                content: Seq::empty(),
                content_original: Seq::empty(),
                path: Seq::empty(),
                nodes: Seq::empty(),
                scrollbar: Scrollbar {
                    state: ScrollbarState { content_length: 0, position: 0 },
                    position: 0,
                },
                current_row: 0,
                active: false,
                modified: false,
                dirty: false,
            }),
    {
        let state = EditorState {
            mode: Mode::Read,
            content: String::new(),
            content_original: String::new(),
            path: String::new(),
            nodes: Vec::new(),
            scrollbar: Scrollbar::default(),
            current_row: 0,
            active: false,
            modified: false,
            dirty: false,
        };
        assert(state@.nodes =~= Seq::<Tree>::empty());
        state
    }
}

} // verus!
