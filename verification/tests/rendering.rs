use basalt::explorer::view::list_item;
use basalt::explorer::ExplorerState;
use basalt::markdown::from_str;
use basalt::markdown::view::{render_nodes, Line};
use basalt::note_editor::text_buffer::moved_cursor;
use basalt::note_editor::{BufferAction, CursorMove, EditorState, Mode};
use basalt::obsidian::{Note, VaultEntry};
use basalt::outline::view::to_list_items;
use basalt::outline::OutlineState;
use ratatui::crossterm::event::{KeyCode, KeyEvent, KeyModifiers};
use tui_textarea::{Input, TextArea};

fn text(line: &Line) -> String {
    line.spans.iter().map(|span| span.content.as_str()).collect()
}

fn texts(lines: &[Line]) -> Vec<String> {
    lines.iter().map(text).collect()
}

/// The editor of the library together with the text area of the terminal
/// library, which does what the editor asks for.
struct Pane {
    state: EditorState,
    area: TextArea<'static>,
}

fn area_of(source: &str, cursor: (usize, usize)) -> TextArea<'static> {
    let mut area: TextArea<'static> = source.lines().map(str::to_string).collect::<Vec<_>>().into();
    area.move_cursor(tui_textarea::CursorMove::Jump(cursor.0 as u16, cursor.1 as u16));
    area
}

impl Pane {
    fn new() -> Self {
        Pane {
            state: EditorState::default(),
            area: TextArea::default(),
        }
    }

    fn buffer(&self) -> String {
        self.area.lines().join("\n")
    }

    fn apply(&mut self, actions: Vec<BufferAction>) {
        for action in actions {
            match action {
                BufferAction::Move(cursor_move) => self.cursor_move(cursor_move),
                BufferAction::Load(content) => self.area = area_of(&content, self.area.cursor()),
                BufferAction::Prepend(content) => {
                    let (_, col) = self.area.cursor();
                    let text = format!("{content}\n{}", self.buffer());
                    self.area = area_of(&text, (content.lines().count() + 1, col));
                }
                BufferAction::Backspace => {
                    self.area.input(Input {
                        key: tui_textarea::Key::Backspace,
                        ctrl: false,
                        alt: false,
                        shift: false,
                    });
                }
            }
        }
    }

    fn cursor_move(&mut self, cursor_move: CursorMove) {
        let target = match cursor_move {
            CursorMove::Top => tui_textarea::CursorMove::Top,
            CursorMove::Bottom => tui_textarea::CursorMove::Bottom,
            CursorMove::Up => tui_textarea::CursorMove::Up,
            CursorMove::Down => tui_textarea::CursorMove::Down,
            CursorMove::Left => tui_textarea::CursorMove::Back,
            CursorMove::Right => tui_textarea::CursorMove::Forward,
            CursorMove::WordForward => tui_textarea::CursorMove::WordForward,
            CursorMove::WordBackward => tui_textarea::CursorMove::WordBack,
            CursorMove::Jump(row, col) => tui_textarea::CursorMove::Jump(row, col),
            CursorMove::Move(row, col) => {
                let (row, col) = moved_cursor(self.area.cursor(), row, col);
                tui_textarea::CursorMove::Jump(row as u16, col as u16)
            }
        };
        self.area.move_cursor(target);
    }

    fn set_content(mut self, content: &str) -> Self {
        let (state, actions) = std::mem::take(&mut self.state).set_content(content);
        self.state = state;
        self.apply(actions);
        self
    }

    fn set_mode(mut self, mode: Mode) -> Self {
        self.state = std::mem::take(&mut self.state).set_mode(mode);
        self
    }

    fn edit(mut self, code: KeyCode) -> Self {
        let changed = self.area.input(KeyEvent::new(code, KeyModifiers::empty()));
        self.state = std::mem::take(&mut self.state).edit(changed);
        self
    }

    fn exit_insert(mut self) -> Self {
        let buffer = self.buffer();
        let (state, actions) = std::mem::take(&mut self.state).exit_insert(&buffer);
        self.state = state;
        self.apply(actions);
        self
    }

    fn cursor_move_col(mut self, col: i32) -> Self {
        self.cursor_move(CursorMove::from((0, col)));
        self
    }

    fn cursor_down(mut self) -> Self {
        let buffer = self.buffer();
        let (state, actions) = std::mem::take(&mut self.state).cursor_down(
            self.area.cursor().0,
            self.area.lines().len(),
            &buffer,
        );
        self.state = state;
        self.apply(actions);
        self
    }
}


fn documents() -> Vec<(&'static str, Vec<&'static str>)> {
    vec![
        (
            "## Headings\n\n# This is a heading 1\n\n## This is a heading 2\n\n### This is a heading 3\n\n#### This is a heading 4\n\n##### This is a heading 5\n\n###### This is a heading 6\n",
            vec![
                "Headings",
                "════════════════════════════════════════════════════════════════════════════",
                "",
                "THIS IS A HEADING 1",
                "▀▀▀▀▀▀▀▀▀▀▀▀▀▀▀▀▀▀▀▀▀▀▀▀▀▀▀▀▀▀▀▀▀▀▀▀▀▀▀▀▀▀▀▀▀▀▀▀▀▀▀▀▀▀▀▀▀▀▀▀▀▀▀▀▀▀▀▀▀▀▀▀▀▀▀▀",
                "",
                "This is a heading 2",
                "════════════════════════════════════════════════════════════════════════════",
                "⬤  This is a heading 3",
                "",
                "● This is a heading 4",
                "",
                "◆ 𝓣𝓱𝓲𝓼 𝓲𝓼 𝓪 𝓱𝓮𝓪𝓭𝓲𝓷𝓰 𝟓",
                "",
                "✺ 𝓣𝓱𝓲𝓼 𝓲𝓼 𝓪 𝓱𝓮𝓪𝓭𝓲𝓷𝓰 𝟔",
                "",
            ],
        ),
        (
            "## Quotes\n\nYou can quote text by adding a > symbols before the text.\n\n> Human beings face ever more complex and urgent problems, and their effectiveness in dealing with these problems is a matter that is critical to the stability and continued progress of society.\n>\n> - Doug Engelbart, 1961\n",
            vec![
                "Quotes",
                "════════════════════════════════════════════════════════════════════════════",
                "You can quote text by adding a > symbols before the text.",
                "",
                "┃ Human beings face ever more complex and urgent problems, and their",
                "┃ effectiveness in dealing with these problems is a matter that is critical",
                "┃ to the stability and continued progress of society.",
                "┃ ",
                "┃ - Doug Engelbart, 1961",
                "",
            ],
        ),
        (
            "## Callout Blocks\n\n> [!tip]\n>\n>You can turn your quote into a [callout](https://help.obsidian.md/Editing+and+formatting/Callouts) by adding `[!info]` as the first line in a quote.\n",
            vec![
                "Callout Blocks",
                "════════════════════════════════════════════════════════════════════════════",
                "┃ You can turn your quote into a callout by adding [!info] as the first line",
                "┃ in a quote.",
                "",
            ],
        ),
        (
            "## Deep Quotes\n\nYou can have deeper levels of quotes by adding a > symbols before the text inside the block quote.\n\n> Regular thoughts\n>\n> > Deeper thoughts\n> >\n> > > Very deep thoughts\n> > >\n> > > - Someone on the internet 1996\n>\n> Back to regular thoughts\n",
            vec![
                "Deep Quotes",
                "════════════════════════════════════════════════════════════════════════════",
                "You can have deeper levels of quotes by adding a > symbols before the text",
                "inside the block quote.",
                "",
                "┃ Regular thoughts",
                "┃ ",
                "┃ ┃ Deeper thoughts",
                "┃ ┃ ",
                "┃ ┃ ┃ Very deep thoughts",
                "┃ ┃ ┃ ",
                "┃ ┃ ┃ - Someone on the internet 1996",
                "┃ ",
                "┃ Back to regular thoughts",
                "",
            ],
        ),
        (
            "## Lists\n\nYou can create an unordered list by adding a `-`, `*`, or `+` before the text.\n\n- First list item\n- Second list item\n- Third list item\n\nTo create an ordered list, start each line with a number followed by a `.` symbol.\n\n1. First list item\n2. Second list item\n3. Third list item\n",
            vec![
                "Lists",
                "════════════════════════════════════════════════════════════════════════════",
                "You can create an unordered list by adding a -, *, or + before the text.",
                "",
                "- First list item",
                "- Second list item",
                "- Third list item",
                "",
                "To create an ordered list, start each line with a number followed by a .",
                "symbol.",
                "",
                "1. First list item",
                "2. Second list item",
                "3. Third list item",
                "",
            ],
        ),
        (
            "## Indented Lists\n\nLists can be indented\n\n- First list item\n  - Second list item\n    - Third list item\n\n",
            vec![
                "Indented Lists",
                "════════════════════════════════════════════════════════════════════════════",
                "Lists can be indented",
                "",
                "- First list item",
                "  - Second list item",
                "    - Third list item",
                "",
            ],
        ),
        (
            "## Task lists\n\nTo create a task list, start each list item with a hyphen and space followed by `[ ]`.\n\n- [x] This is a completed task.\n- [ ] This is an incomplete task.\n\n>You can use any character inside the brackets to mark it as complete.\n\n- [x] Oats\n- [?] Flour\n- [d] Apples\n",
            vec![
                "Task lists",
                "════════════════════════════════════════════════════════════════════════════",
                "To create a task list, start each list item with a hyphen and space followed",
                "by [ ].",
                "",
                "■ This is a completed task.",
                "□ This is an incomplete task.",
                "",
                "┃ You can use any character inside the brackets to mark it as complete.",
                "",
                "■ Oats",
                "- [?] Flour",
                "- [d] Apples",
                "",
            ],
        ),
        (
            "## Code blocks\n\nTo format a block of code, surround the code with triple backticks.\n\n```\ncd ~/Desktop\n```\n\nYou can also create a code block by indenting the text using `Tab` or 4 blank spaces.\n\n    cd ~/Desktop\n",
            vec![
                "Code blocks",
                "════════════════════════════════════════════════════════════════════════════",
                "To format a block of code, surround the code with triple backticks.",
                "",
                "                                                                            ",
                " cd ~/Desktop                                                               ",
                "                                                                            ",
                "",
                "You can also create a code block by indenting the text using Tab or 4 blank",
                "spaces.",
                "",
                "                                                                            ",
                " cd ~/Desktop                                                               ",
                "                                                                            ",
                "",
            ],
        ),
        (
            "## Code blocks\n\nYou can add syntax highlighting to a code block, by adding a language code after the first set of backticks.\n\n```js\nfunction fancyAlert(arg) {\n  if(arg) {\n    $.facebox({div:'#foo'})\n  }\n}\n```\n",
            vec![
                "Code blocks",
                "════════════════════════════════════════════════════════════════════════════",
                "You can add syntax highlighting to a code block, by adding a language code",
                "after the first set of backticks.",
                "",
                "                                                                            ",
                " function fancyAlert(arg) {                                                 ",
                "   if(arg) {                                                                ",
                "     $.facebox({div:'#foo'})                                                ",
                "   }                                                                        ",
                " }                                                                          ",
                "                                                                            ",
                "",
            ],
        ),
    ]
}

#[test]
fn test_render_markdown_view() {
    for (text, expected) in documents() {
        assert_eq!(texts(&render_nodes(&from_str(text), 76)), expected);
    }
}

#[test]
fn test_rendered_markdown_view() {
    for (text, expected) in documents() {
        let pane = Pane::new().set_content(text);
        assert_eq!(texts(&render_nodes(&pane.state.nodes, 76)), expected);
        assert_eq!(pane.state.content(), text);
        assert_eq!(pane.state.mode(), Mode::Read);
        assert_eq!(pane.buffer(), text.lines().next().unwrap());
    }
}

const CONTENT: &str = "## Deep Quotes\n\nYou can have deeper levels of quotes by adding a > symbols before the text inside the block quote.\n\n> Regular thoughts\n>\n> > Deeper thoughts\n> >\n> > > Very deep thoughts\n> > >\n> > > - Someone on the internet 1996\n>\n> Back to regular thoughts\n";

const REST: &str = "\n\nYou can have deeper levels of quotes by adding a > symbols before the text inside the block quote.\n\n> Regular thoughts\n>\n> > Deeper thoughts\n> >\n> > > Very deep thoughts\n> > >\n> > > - Someone on the internet 1996\n>\n> Back to regular thoughts\n";

#[test]
fn test_rendered_editor_states() {
    let empty = Pane::new();
    assert_eq!(empty.state, EditorState::default());
    assert_eq!(empty.area.lines(), [""]);
    assert_eq!(render_nodes(&empty.state.nodes, 76), vec![]);

    let default_content = Pane::new().set_content(CONTENT);
    assert_eq!(default_content.state.content(), CONTENT);
    assert_eq!(default_content.state.mode(), Mode::Read);
    assert_eq!(default_content.area.lines(), ["## Deep Quotes"]);
    assert_eq!(
        texts(&render_nodes(&default_content.state.nodes, 76))[..3],
        ["Deep Quotes", "════════════════════════════════════════════════════════════════════════════", "You can have deeper levels of quotes by adding a > symbols before the text"]
    );

    let read = Pane::new().set_content(CONTENT).set_mode(Mode::Read);
    assert_eq!(read.state, default_content.state);

    let edit = Pane::new().set_content(CONTENT).set_mode(Mode::Edit);
    assert!(edit.state.is_editing());
    assert_eq!(edit.state.nodes, default_content.state.nodes);
    assert_eq!(edit.area.lines(), ["## Deep Quotes"]);
    assert_eq!(edit.area.cursor(), (0, 0));

    let simple_change = Pane::new()
        .set_content(CONTENT)
        .set_mode(Mode::Edit)
        .edit(KeyCode::Char('#'))
        .exit_insert()
        .set_mode(Mode::Read);
    assert_eq!(
        simple_change.state.content(),
        format!("\n### Deep Quotes{REST}")
    );
    assert!(simple_change.state.modified);
    assert_eq!(simple_change.state.current_row, 0);
    assert_eq!(simple_change.state.nodes, from_str(simple_change.state.content()));
    assert_eq!(simple_change.area.lines(), ["### Deep Quotes"]);
    assert_eq!(
        texts(&render_nodes(&simple_change.state.nodes, 76))[..2],
        ["⬤  Deep Quotes", ""]
    );

    let cursor_move = Pane::new()
        .set_content(CONTENT)
        .cursor_move_col(7)
        .set_mode(Mode::Edit)
        .edit(KeyCode::Char(' '))
        .edit(KeyCode::Char('B'))
        .edit(KeyCode::Char('a'))
        .edit(KeyCode::Char('s'))
        .edit(KeyCode::Char('a'))
        .edit(KeyCode::Char('l'))
        .edit(KeyCode::Char('t'))
        .exit_insert()
        .set_mode(Mode::Read);
    assert_eq!(
        cursor_move.state.content(),
        format!("\n## Deep Basalt Quotes{REST}")
    );
    assert_eq!(cursor_move.area.lines(), ["## Deep Basalt Quotes"]);
    assert_eq!(cursor_move.area.cursor(), (0, 14));
    assert_eq!(
        texts(&render_nodes(&cursor_move.state.nodes, 76))[0],
        "Deep Basalt Quotes"
    );

    let word_input = Pane::new()
        .set_content(CONTENT)
        .cursor_down()
        .set_mode(Mode::Edit)
        .edit(KeyCode::Enter)
        .edit(KeyCode::Char('B'))
        .edit(KeyCode::Char('a'))
        .edit(KeyCode::Char('s'))
        .edit(KeyCode::Char('a'))
        .edit(KeyCode::Char('l'))
        .edit(KeyCode::Char('t'))
        .edit(KeyCode::Enter)
        .edit(KeyCode::Enter)
        .exit_insert()
        .set_mode(Mode::Read);
    assert_eq!(
        word_input.state.content(),
        format!("## Deep Quotes\n\n\nBasalt{REST}")
    );
    assert_eq!(word_input.state.current_row, 1);
    assert!(word_input.state.modified);
    assert_eq!(word_input.area.lines(), ["Basalt"]);
    assert_eq!(
        texts(&render_nodes(&word_input.state.nodes, 76))[..4],
        ["Deep Quotes", "════════════════════════════════════════════════════════════════════════════", "Basalt", ""]
    );
}

#[test]
fn test_outline_render() {
    let tests: Vec<(&str, &str, Vec<&str>)> = vec![
        ("empty", "", vec![]),
        ("single_level", "# Heading 1", vec!["  Heading 1"]),
        ("only_top_level", "# Heading 1\n# Heading 2\n# Heading 3\n# Heading 4\n# Heading 5\n# Heading 6\n", vec!["  Heading 1", "  Heading 2", "  Heading 3", "  Heading 4", "  Heading 5", "  Heading 6"]),
        ("only_deep_level", "###### Heading 1\n##### Heading 2\n###### Heading 2.1\n###### Heading 2.2\n##### Heading 3\n##### Heading 4\n###### Heading 4.1\n##### Heading 5\n", vec!["  Heading 1", "▾ Heading 2", "│   Heading 2.1", "│   Heading 2.2", "  Heading 3", "▾ Heading 4", "│   Heading 4.1", "  Heading 5"]),
        ("sequential_all_levels", "# Heading 1\n## Heading 2\n### Heading 3\n#### Heading 4\n##### Heading 5\n###### Heading 6\n", vec!["▾ Heading 1", "│ ▾ Heading 2", "│ │ ▾ Heading 3", "│ │ │ ▾ Heading 4", "│ │ │ │ ▾ Heading 5", "│ │ │ │ │   Heading 6"]),
        ("complex_nested_structure", "## Heading 1\n## Heading 2\n### Heading 2.1\n#### Heading 2.1.1\n### Heading 2.2\n#### Heading 2.2.1\n## Heading 3\n###### Heading 3.1.1.1.1.1\n", vec!["  Heading 1", "▾ Heading 2", "│ ▾ Heading 2.1", "│ │   Heading 2.1.1", "│ ▾ Heading 2.2", "│ │   Heading 2.2.1", "▾ Heading 3", "│   Heading 3.1.1.1.1.1"]),
        ("irregular_nesting_with_skips", "# Heading 1\n## Heading 2\n## Heading 2.1\n#### Heading 2.1.1\n#### Heading 2.1.2\n## Heading 2.2\n### Heading 3\n", vec!["▾ Heading 1", "│   Heading 2", "│ ▾ Heading 2.1", "│ │   Heading 2.1.1", "│ │   Heading 2.1.2", "│ ▾ Heading 2.2", "│ │   Heading 3"]),
        ("level_skipping", "# Level 1\n### Level 3 (skipped 2)\n##### Level 5 (skipped 4)\n## Level 2 (back to 2)\n###### Level 6 (jump to 6)\n", vec!["▾ Level 1", "│ ▾ Level 3 (skipped 2)", "│ │   Level 5 (skipped 4)", "│ ▾ Level 2 (back to 2)", "│ │   Level 6 (jump to 6)"]),
        ("reverse_hierarchy", "###### Level 6\n##### Level 5\n#### Level 4\n### Level 3\n## Level 2\n# Level 1\n", vec!["  Level 6", "  Level 5", "  Level 4", "  Level 3", "  Level 2", "  Level 1"]),
        ("multiple_root_levels", "# Root 1\n## Child 1.1\n### Child 1.1.1\n\n## Root 2 (different level)\n#### Child 2.1 (skipped level 3)\n\n### Root 3 (different level)\n###### Child 3.1 (deep skip)\n", vec!["▾ Root 1", "│ ▾ Child 1.1", "│ │   Child 1.1.1", "│ ▾ Root 2 (different level)", "│ │   Child 2.1 (skipped level 3)", "│ │ ▾ Root 3 (different level)", "│ │ │   Child 3.1 (deep skip)"]),
        ("duplicate_headings", "# Duplicate\n## Child\n# Duplicate\n## Different Child\n# Duplicate\n", vec!["▾ Duplicate", "│   Child", "▾ Duplicate", "│   Different Child", "  Duplicate"]),
        ("mixed_with_content", "# Chapter 1\nSome paragraph content here.\n\n## Section 1.1\nMore content.\n\n- List item\n- Another item\n\n### Subsection 1.1.1\nFinal content.\n", vec!["▾ Chapter 1", "│ ▾ Section 1.1", "│ │   Subsection 1.1.1"]),
        ("boundary_conditions_systematic", "# A\n## B\n### C\n#### D\n##### E\n###### F\n##### E2\n#### D2\n### C2\n## B2\n# A2\n", vec!["▾ A", "│ ▾ B", "│ │ ▾ C", "│ │ │ ▾ D", "│ │ │ │ ▾ E", "│ │ │ │ │   F", "│ │ │ │   E2", "│ │ │   D2", "│ │   C2", "│   B2", "  A2"]),
    ];

    tests.into_iter().for_each(|(name, text, expected)| {
        let nodes = from_str(text);
        let state = OutlineState::new(&nodes, 0, true).expand_all();
        assert_eq!(
            texts(&to_list_items(&state.items, 0)),
            expected,
            "outline of {name}"
        );
        assert_eq!(
            state.list_state.selected,
            if expected.is_empty() { None } else { Some(0) }
        );
    });
}

fn note(name: &str, path: &str) -> VaultEntry {
    VaultEntry::File(Note {
        name: name.into(),
        path: path.into(),
    })
}

fn dir(name: &str, path: &str, entries: Vec<VaultEntry>) -> VaultEntry {
    VaultEntry::Directory {
        name: name.into(),
        path: path.into(),
        entries,
    }
}

#[test]
fn test_render_entries() {
    let tests = [
        [].to_vec(),
        [note("Test", "test.md"), note("Andesite", "andesite.md")].to_vec(),
        [dir("TestDir", "test_dir", vec![])].to_vec(),
        [dir(
            "TestDir",
            "test_dir",
            vec![
                note("Andesite", "test_dir/andesite.md"),
                dir(
                    "Notes",
                    "test_dir/notes",
                    vec![note("Pathing", "test_dir/notes/pathing.md")],
                ),
                dir(
                    "Amber Specs",
                    "test_dir/amber_specs",
                    vec![note("Spec_01", "test_dir/amber_specs/spec_01.md")],
                ),
            ],
        )]
        .to_vec(),
    ];
    let expected: [Vec<&str>; 4] = [
        vec![],
        vec!["  Test", "◆ Andesite"],
        vec!["▾ TestDir"],
        vec!["▾ TestDir", "│ ▸ Notes", "│ ▸ Amber Specs", "│   Andesite"],
    ];

    tests
        .into_iter()
        .zip(expected)
        .for_each(|(items, expected)| {
            let state = ExplorerState::new("Test", items).select().sort();
            let path = state.selected_path();
            let rows: Vec<String> = state
                .flat_items
                .iter()
                .map(|(item, depth)| {
                    text(&list_item(item, *depth, path.as_deref(), state.is_open()))
                })
                .collect();
            assert_eq!(rows, expected);
        });
}
