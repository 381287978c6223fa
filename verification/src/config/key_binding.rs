//! Keys, the commands that the configuration binds them to, and the rules by
//! which the configuration's key descriptions are read.
use crate::app::{explorer, help_modal, note_editor, splash, vault_selector_modal, Message, ScrollAmount};
use crate::config::ConfigError;
use crate::text::{
    lowercase, lowercased, parse_small_number, same_text, small_number, split, split_on, texts,
};
use vstd::prelude::*;
use vstd::std_specs::convert::FromSpecImpl;
use vstd::string::StrSliceExecFns;

verus! {

/// The key of a key press.
#[derive(Debug, Clone, Copy, PartialEq, Eq, Structural)]
pub enum KeyCode {
    Null,
    Char(char),
    F(u8),
    Esc,
    Backspace,
    BackTab,
    Delete,
    Down,
    End,
    Enter,
    Home,
    Insert,
    Left,
    PageDown,
    PageUp,
    Right,
    Tab,
    Up,
}

/// The modifier keys held during a key press.
#[derive(Debug, Clone, Copy, PartialEq, Eq, Structural)]
pub struct KeyModifiers {
    pub shift: bool,
    pub control: bool,
    pub alt: bool,
    pub super_key: bool,
    pub hyper: bool,
    pub meta: bool,
}

impl KeyModifiers {
    /// No modifier.
    pub open spec fn spec_none() -> KeyModifiers {
        KeyModifiers {
            shift: false,
            control: false,
            alt: false,
            super_key: false,
            hyper: false,
            meta: false,
        }
    }

    /// The modifiers of either of the two.
    pub open spec fn spec_union(self, other: KeyModifiers) -> KeyModifiers {
        KeyModifiers {
            shift: self.shift || other.shift,
            control: self.control || other.control,
            alt: self.alt || other.alt,
            super_key: self.super_key || other.super_key,
            hyper: self.hyper || other.hyper,
            meta: self.meta || other.meta,
        }
    }

    /// No modifier.
    #[verifier::when_used_as_spec(spec_none)]
    pub fn none() -> (modifiers: KeyModifiers)
        ensures
            modifiers == KeyModifiers::spec_none(),
    {
        KeyModifiers {
            shift: false,
            control: false,
            alt: false,
            super_key: false,
            hyper: false,
            meta: false,
        }
    }

    /// The modifiers of either of the two.
    #[verifier::when_used_as_spec(spec_union)]
    pub fn union(self, other: KeyModifiers) -> (modifiers: KeyModifiers)
        ensures
            modifiers == self.spec_union(other),
    {
        KeyModifiers {
            shift: self.shift || other.shift,
            control: self.control || other.control,
            alt: self.alt || other.alt,
            super_key: self.super_key || other.super_key,
            hyper: self.hyper || other.hyper,
            meta: self.meta || other.meta,
        }
    }

    /// Whether no modifier is held.
    pub fn is_empty(&self) -> (empty: bool)
        ensures
            empty == (*self == KeyModifiers::spec_none()),
    {
        !self.shift && !self.control && !self.alt && !self.super_key && !self.hyper && !self.meta
    }
}

/// A key press: a key and the modifiers held with it.
#[derive(Debug, Clone, Copy, PartialEq, Eq, Structural)]
pub struct Key {
    pub modifiers: KeyModifiers,
    pub code: KeyCode,
}

impl Key {
    /// The key `c` with the control key held.
    pub fn ctrl_c() -> (key: Key)
        ensures
            key == (Key {
                code: KeyCode::Char('c'),
                modifiers: KeyModifiers { control: true, ..KeyModifiers::spec_none() },
            }),
    {
        Key::new(
            KeyCode::Char('c'),
            KeyModifiers {
                shift: false,
                control: true,
                alt: false,
                super_key: false,
                hyper: false,
                meta: false,
            },
        )
    }

    /// A key with modifiers.
    pub fn new(code: KeyCode, modifiers: KeyModifiers) -> (key: Key)
        ensures
            key == (Key { code, modifiers }),
    {
        Key { code, modifiers }
    }
}

impl From<char> for Key {
    fn from(value: char) -> (key: Self)
        ensures
            key == (Key { code: KeyCode::Char(value), modifiers: KeyModifiers::spec_none() }),
    {
        Key::new(KeyCode::Char(value), KeyModifiers::none())
    }
}

impl FromSpecImpl<char> for Key {
    open spec fn obeys_from_spec() -> bool {
        true
    }

    open spec fn from_spec(value: char) -> Self {
        Key { code: KeyCode::Char(value), modifiers: KeyModifiers::spec_none() }
    }
}

impl From<(KeyCode, KeyModifiers)> for Key {
    fn from(value: (KeyCode, KeyModifiers)) -> (key: Self)
        ensures
            key == (Key { code: value.0, modifiers: value.1 }),
    {
        Key::new(value.0, value.1)
    }
}

impl FromSpecImpl<(KeyCode, KeyModifiers)> for Key {
    open spec fn obeys_from_spec() -> bool {
        true
    }

    open spec fn from_spec(value: (KeyCode, KeyModifiers)) -> Self {
        Key { code: value.0, modifiers: value.1 }
    }
}

impl From<(char, KeyModifiers)> for Key {
    fn from(value: (char, KeyModifiers)) -> (key: Self)
        ensures
            key == (Key { code: KeyCode::Char(value.0), modifiers: value.1 }),
    {
        Key::new(KeyCode::Char(value.0), value.1)
    }
}

impl FromSpecImpl<(char, KeyModifiers)> for Key {
    open spec fn obeys_from_spec() -> bool {
        true
    }

    open spec fn from_spec(value: (char, KeyModifiers)) -> Self {
        Key { code: KeyCode::Char(value.0), modifiers: value.1 }
    }
}

/// The modifier that a word of a key description names; the empty word names
/// none. `None` for a word that names no modifier.
pub open spec fn modifier_of(word: Seq<char>) -> Option<KeyModifiers> {
    let none = KeyModifiers::spec_none();
    if word == ""@ {
        Some(none)
    } else if word == "alt"@ {
        Some(KeyModifiers { alt: true, ..none })
    } else if word == "ctrl"@ || word == "control"@ {
        Some(KeyModifiers { control: true, ..none })
    } else if word == "hyper"@ {
        Some(KeyModifiers { hyper: true, ..none })
    } else if word == "meta"@ {
        Some(KeyModifiers { meta: true, ..none })
    } else if word == "shift"@ {
        Some(KeyModifiers { shift: true, ..none })
    } else if word == "super"@ {
        Some(KeyModifiers { super_key: true, ..none })
    } else {
        None
    }
}

/// Reads the name of a modifier.
pub fn parse_modifiers(modifiers: &str) -> (res: Result<KeyModifiers, ConfigError>)
    ensures
        match modifier_of(modifiers@) {
            Some(found) => res == Ok::<KeyModifiers, ConfigError>(found),
            None => res matches Err(ConfigError::UnknownKeyModifiers(word)) && word@
                == modifiers@,
        },
{
    let none = KeyModifiers::none();
    if same_text(modifiers, "") {
        Ok(none)
    } else if same_text(modifiers, "alt") {
        Ok(KeyModifiers { alt: true, ..none })
    } else if same_text(modifiers, "ctrl") || same_text(modifiers, "control") {
        Ok(KeyModifiers { control: true, ..none })
    } else if same_text(modifiers, "hyper") {
        Ok(KeyModifiers { hyper: true, ..none })
    } else if same_text(modifiers, "meta") {
        Ok(KeyModifiers { meta: true, ..none })
    } else if same_text(modifiers, "shift") {
        Ok(KeyModifiers { shift: true, ..none })
    } else if same_text(modifiers, "super") {
        Ok(KeyModifiers { super_key: true, ..none })
    } else {
        Err(ConfigError::UnknownKeyModifiers(modifiers.to_owned()))
    }
}

/// The key that a name of more than one byte stands for.
pub open spec fn named_key(word: Seq<char>) -> Option<KeyCode> {
    if word == "esc"@ {
        Some(KeyCode::Esc)
    } else if word == "space"@ {
        Some(KeyCode::Char(' '))
    } else if word == "backspace"@ {
        Some(KeyCode::Backspace)
    } else if word == "backtab"@ {
        Some(KeyCode::BackTab)
    } else if word == "delete"@ {
        Some(KeyCode::Delete)
    } else if word == "down"@ {
        Some(KeyCode::Down)
    } else if word == "end"@ {
        Some(KeyCode::End)
    } else if word == "enter"@ {
        Some(KeyCode::Enter)
    } else if word == "home"@ {
        Some(KeyCode::Home)
    } else if word == "insert"@ {
        Some(KeyCode::Insert)
    } else if word == "left"@ {
        Some(KeyCode::Left)
    } else if word == "page_down"@ {
        Some(KeyCode::PageDown)
    } else if word == "page_up"@ {
        Some(KeyCode::PageUp)
    } else if word == "right"@ {
        Some(KeyCode::Right)
    } else if word == "tab"@ {
        Some(KeyCode::Tab)
    } else if word == "up"@ {
        Some(KeyCode::Up)
    } else {
        None
    }
}

/// The function key that a word stands for: the letter `f` and a number below
/// 256.
pub open spec fn function_key(word: Seq<char>) -> Option<KeyCode> {
    if word.len() > 0 && word[0] == 'f' {
        match small_number(word.skip(1)) {
            Some(number) => Some(KeyCode::F(number)),
            None => None,
        }
    } else {
        None
    }
}

/// The key that a word of a key description stands for: nothing stands for the
/// null key, a single character of one byte for itself, and a longer word for a
/// function key or a named key. `None` for a word that stands for no key.
pub open spec fn code_of(word: Seq<char>) -> Option<KeyCode> {
    if word.len() == 0 {
        Some(KeyCode::Null)
    } else if word.len() == 1 && (word[0] as u32) < 128 {
        Some(KeyCode::Char(word[0]))
    } else {
        match function_key(word) {
            Some(key) => Some(key),
            None => named_key(word),
        }
    }
}

/// Reads the name of a named key.
fn parse_named(code: &str) -> (res: Option<KeyCode>)
    ensures
        res == named_key(code@),
{
    if same_text(code, "esc") {
        Some(KeyCode::Esc)
    } else if same_text(code, "space") {
        Some(KeyCode::Char(' '))
    } else if same_text(code, "backspace") {
        Some(KeyCode::Backspace)
    } else if same_text(code, "backtab") {
        Some(KeyCode::BackTab)
    } else if same_text(code, "delete") {
        Some(KeyCode::Delete)
    } else if same_text(code, "down") {
        Some(KeyCode::Down)
    } else if same_text(code, "end") {
        Some(KeyCode::End)
    } else if same_text(code, "enter") {
        Some(KeyCode::Enter)
    } else if same_text(code, "home") {
        Some(KeyCode::Home)
    } else if same_text(code, "insert") {
        Some(KeyCode::Insert)
    } else if same_text(code, "left") {
        Some(KeyCode::Left)
    } else if same_text(code, "page_down") {
        Some(KeyCode::PageDown)
    } else if same_text(code, "page_up") {
        Some(KeyCode::PageUp)
    } else if same_text(code, "right") {
        Some(KeyCode::Right)
    } else if same_text(code, "tab") {
        Some(KeyCode::Tab)
    } else if same_text(code, "up") {
        Some(KeyCode::Up)
    } else {
        None
    }
}

/// Reads the name of a key.
pub fn parse_code(code: &str) -> (res: Result<KeyCode, ConfigError>)
    ensures
        match code_of(code@) {
            Some(found) => res == Ok::<KeyCode, ConfigError>(found),
            None => res matches Err(ConfigError::UnknownKeyCode(word)) && word@ == code@,
        },
{
    let length = code.unicode_len();
    if length == 0 {
        return Ok(KeyCode::Null);
    }
    let first = code.get_char(0);
    if length == 1 && (first as u32) < 128 {
        return Ok(KeyCode::Char(first));
    }
    if first == 'f' {
        match parse_small_number(code, 1) {
            Some(number) => {
                return Ok(KeyCode::F(number));
            },
            None => {},
        }
    }
    match parse_named(code) {
        Some(key) => Ok(key),
        None => Err(ConfigError::UnknownKeyCode(code.to_owned())),
    }
}

/// The modifiers that the first `count` words name, taken together.
pub open spec fn modifiers_of(words: Seq<Seq<char>>, count: int) -> KeyModifiers
    decreases count,
{
    if count <= 0 {
        KeyModifiers::spec_none()
    } else {
        modifiers_of(words, count - 1).spec_union(
            match modifier_of(words[count - 1]) {
                Some(modifiers) => modifiers,
                None => KeyModifiers::spec_none(),
            },
        )
    }
}

/// What reading a key description gives.
pub enum KeyReading {
    /// The key that the description stands for.
    Key(Key),
    /// The first word before a plus sign that names no modifier.
    UnknownModifiers(Seq<char>),
    /// The last word, which names no key.
    UnknownCode(Seq<char>),
}

/// Reads the words of a key description, modifiers first: the first word that
/// names no modifier ends the reading, then the last word must name a key.
pub open spec fn read_words(words: Seq<Seq<char>>, at: int) -> KeyReading
    decreases words.len() - at,
{
    if at < 0 || at >= words.len() - 1 {
        match code_of(words.last()) {
            Some(code) => KeyReading::Key(
                Key { modifiers: modifiers_of(words, words.len() - 1), code },
            ),
            None => KeyReading::UnknownCode(words.last()),
        }
    } else if modifier_of(words[at]) is None {
        KeyReading::UnknownModifiers(words[at])
    } else {
        read_words(words, at + 1)
    }
}

/// What a key description stands for. The description is read in lowercase;
/// its words are separated by plus signs, the last word names the key and the
/// words before it name the modifiers.
pub open spec fn read_key(description: Seq<char>) -> KeyReading {
    read_words(split_on(lowercased(description), '+'), 0)
}

/// Reads a key description such as `q`, `ctrl+g` or `shift+alt+f5`.
pub fn parse_key(value: &str) -> (res: Result<Key, ConfigError>)
    ensures
        match read_key(value@) {
            KeyReading::Key(key) => res == Ok::<Key, ConfigError>(key),
            KeyReading::UnknownModifiers(word) => res matches Err(
                ConfigError::UnknownKeyModifiers(text),
            ) && text@ == word,
            KeyReading::UnknownCode(word) => res matches Err(ConfigError::UnknownKeyCode(text))
                && text@ == word,
        },
{
    let lowered = lowercase(value);
    let parts = split(lowered.as_str(), '+');
    let ghost words = texts(parts@);
    let count = parts.len() - 1;
    let mut modifiers = KeyModifiers::none();
    let mut i: usize = 0;
    while i < count
        invariant
            i <= count,
            count == parts.len() - 1,
            words == texts(parts@),
            modifiers == modifiers_of(words, i as int),
            read_key(value@) == read_words(words, i as int),
        decreases count - i,
    {
        assert(words[i as int] == parts[i as int]@);
        match parse_modifiers(parts[i].as_str()) {
            Ok(found) => {
                modifiers = modifiers.union(found);
            },
            Err(error) => {
                return Err(error);
            },
        }
        i += 1;
    }
    assert(words.last() == parts[count as int]@);
    match parse_code(parts[count].as_str()) {
        Ok(code) => Ok(Key { modifiers, code }),
        Err(error) => Err(error),
    }
}

/// A key together with the command that it is bound to.
#[derive(Debug, Clone, Copy, PartialEq, Eq, Structural)]
pub struct KeyBinding {
    pub key: Key,
    pub command: Command,
}

impl KeyBinding {
    /// Binds a command to a key.
    pub fn new(key: Key, command: Command) -> (binding: Self)
        ensures
            binding == (KeyBinding { key, command }),
    {
        Self { key, command }
    }
}

impl From<(Key, Command)> for KeyBinding {
    fn from(value: (Key, Command)) -> (binding: Self)
        ensures
            binding == (KeyBinding { key: value.0, command: value.1 }),
    {
        Self::new(value.0, value.1)
    }
}

impl FromSpecImpl<(Key, Command)> for KeyBinding {
    open spec fn obeys_from_spec() -> bool {
        true
    }

    open spec fn from_spec(value: (Key, Command)) -> Self {
        KeyBinding { key: value.0, command: value.1 }
    }
}

/// The commands that the configuration can bind to a key.
#[derive(Debug, Clone, Copy, PartialEq, Eq, Structural)]
pub enum Command {
    Quit,
    SplashUp,
    SplashDown,
    SplashOpen,
    ExplorerUp,
    ExplorerDown,
    ExplorerOpen,
    ExplorerSort,
    ExplorerToggle,
    ExplorerSwitchPane,
    ExplorerScrollUpOne,
    ExplorerScrollDownOne,
    ExplorerScrollUpHalfPage,
    ExplorerScrollDownHalfPage,
    HelpModalScrollUpOne,
    HelpModalScrollDownOne,
    HelpModalScrollUpHalfPage,
    HelpModalScrollDownHalfPage,
    HelpModalToggle,
    HelpModalClose,
    NoteEditorScrollUpOne,
    NoteEditorScrollDownOne,
    NoteEditorScrollUpHalfPage,
    NoteEditorScrollDownHalfPage,
    NoteEditorSwitchPane,
    NoteEditorToggleExplorer,
    NoteEditorCursorUp,
    NoteEditorCursorDown,
    NoteEditorExperimentalCursorWordForward,
    NoteEditorExperimentalCursorWordBackward,
    NoteEditorExperimentalSetEditMode,
    NoteEditorExperimentalSetReadMode,
    NoteEditorExperimentalSave,
    NoteEditorExperimentalExitMode,
    NoteEditorExperimentalCursorLeft,
    NoteEditorExperimentalCursorRight,
    VaultSelectorModalUp,
    VaultSelectorModalDown,
    VaultSelectorModalClose,
    VaultSelectorModalOpen,
    VaultSelectorModalToggle,
}

/// The pane that a command speaks to; `None` for the command that quits.
#[derive(Debug, Clone, Copy, PartialEq, Eq, Structural)]
pub enum Target {
    Splash,
    Explorer,
    HelpModal,
    NoteEditor,
    VaultSelectorModal,
}

impl Command {
    /// The pane that the command speaks to.
    pub open spec fn target(self) -> Option<Target> {
        match self {
            Command::Quit => None,
            Command::SplashUp | Command::SplashDown | Command::SplashOpen => Some(Target::Splash),
            Command::ExplorerUp
            | Command::ExplorerDown
            | Command::ExplorerOpen
            | Command::ExplorerSort
            | Command::ExplorerToggle
            | Command::ExplorerSwitchPane
            | Command::ExplorerScrollUpOne
            | Command::ExplorerScrollDownOne
            | Command::ExplorerScrollUpHalfPage
            | Command::ExplorerScrollDownHalfPage => Some(Target::Explorer),
            Command::HelpModalScrollUpOne
            | Command::HelpModalScrollDownOne
            | Command::HelpModalScrollUpHalfPage
            | Command::HelpModalScrollDownHalfPage
            | Command::HelpModalToggle
            | Command::HelpModalClose => Some(Target::HelpModal),
            Command::VaultSelectorModalUp
            | Command::VaultSelectorModalDown
            | Command::VaultSelectorModalClose
            | Command::VaultSelectorModalOpen
            | Command::VaultSelectorModalToggle => Some(Target::VaultSelectorModal),
            _ => Some(Target::NoteEditor),
        }
    }

    /// The message that the command sends.
    pub open spec fn message(self) -> Message {
        match self {
            Command::Quit => Message::Quit,
            Command::SplashUp => Message::Splash(splash::Message::Up),
            Command::SplashDown => Message::Splash(splash::Message::Down),
            Command::SplashOpen => Message::Splash(splash::Message::Open),
            Command::ExplorerUp => Message::Explorer(explorer::Message::Up),
            Command::ExplorerDown => Message::Explorer(explorer::Message::Down),
            Command::ExplorerOpen => Message::Explorer(explorer::Message::Open),
            Command::ExplorerSort => Message::Explorer(explorer::Message::Sort),
            Command::ExplorerToggle => Message::Explorer(explorer::Message::Toggle),
            Command::ExplorerSwitchPane => Message::Explorer(explorer::Message::SwitchPane),
            Command::ExplorerScrollUpOne => Message::Explorer(
                explorer::Message::ScrollUp(ScrollAmount::One),
            ),
            Command::ExplorerScrollDownOne => Message::Explorer(
                explorer::Message::ScrollDown(ScrollAmount::One),
            ),
            Command::ExplorerScrollUpHalfPage => Message::Explorer(
                explorer::Message::ScrollUp(ScrollAmount::HalfPage),
            ),
            Command::ExplorerScrollDownHalfPage => Message::Explorer(
                explorer::Message::ScrollDown(ScrollAmount::HalfPage),
            ),
            Command::HelpModalScrollUpOne => Message::HelpModal(
                help_modal::Message::ScrollUp(ScrollAmount::One),
            ),
            Command::HelpModalScrollDownOne => Message::HelpModal(
                help_modal::Message::ScrollDown(ScrollAmount::One),
            ),
            Command::HelpModalScrollUpHalfPage => Message::HelpModal(
                help_modal::Message::ScrollUp(ScrollAmount::HalfPage),
            ),
            Command::HelpModalScrollDownHalfPage => Message::HelpModal(
                help_modal::Message::ScrollDown(ScrollAmount::HalfPage),
            ),
            Command::HelpModalToggle => Message::HelpModal(help_modal::Message::Toggle),
            Command::HelpModalClose => Message::HelpModal(help_modal::Message::Close),
            Command::NoteEditorScrollUpOne => Message::NoteEditor(
                note_editor::Message::ScrollUp(ScrollAmount::One),
            ),
            Command::NoteEditorScrollDownOne => Message::NoteEditor(
                note_editor::Message::ScrollDown(ScrollAmount::One),
            ),
            Command::NoteEditorScrollUpHalfPage => Message::NoteEditor(
                note_editor::Message::ScrollUp(ScrollAmount::HalfPage),
            ),
            Command::NoteEditorScrollDownHalfPage => Message::NoteEditor(
                note_editor::Message::ScrollDown(ScrollAmount::HalfPage),
            ),
            Command::NoteEditorSwitchPane => Message::NoteEditor(note_editor::Message::SwitchPane),
            Command::NoteEditorCursorUp => Message::NoteEditor(note_editor::Message::CursorUp),
            Command::NoteEditorCursorDown => Message::NoteEditor(note_editor::Message::CursorDown),
            Command::NoteEditorToggleExplorer => Message::NoteEditor(
                note_editor::Message::ToggleExplorer,
            ),
            Command::NoteEditorExperimentalSetEditMode => Message::NoteEditor(
                note_editor::Message::EditMode,
            ),
            Command::NoteEditorExperimentalSetReadMode => Message::NoteEditor(
                note_editor::Message::ReadMode,
            ),
            Command::NoteEditorExperimentalSave => Message::NoteEditor(note_editor::Message::Save),
            Command::NoteEditorExperimentalExitMode => Message::NoteEditor(
                note_editor::Message::ExitMode,
            ),
            Command::NoteEditorExperimentalCursorWordForward => Message::NoteEditor(
                note_editor::Message::CursorWordForward,
            ),
            Command::NoteEditorExperimentalCursorWordBackward => Message::NoteEditor(
                note_editor::Message::CursorWordBackward,
            ),
            Command::NoteEditorExperimentalCursorLeft => Message::NoteEditor(
                note_editor::Message::CursorLeft,
            ),
            Command::NoteEditorExperimentalCursorRight => Message::NoteEditor(
                note_editor::Message::CursorRight,
            ),
            Command::VaultSelectorModalClose => Message::VaultSelectorModal(
                vault_selector_modal::Message::Close,
            ),
            Command::VaultSelectorModalToggle => Message::VaultSelectorModal(
                vault_selector_modal::Message::Toggle,
            ),
            Command::VaultSelectorModalUp => Message::VaultSelectorModal(
                vault_selector_modal::Message::Up,
            ),
            Command::VaultSelectorModalDown => Message::VaultSelectorModal(
                vault_selector_modal::Message::Down,
            ),
            Command::VaultSelectorModalOpen => Message::VaultSelectorModal(
                vault_selector_modal::Message::Select,
            ),
        }
    }
}

/// The pane that a message goes to; `None` for the messages to the application
/// itself.
pub open spec fn message_target(message: Message) -> Option<Target> {
    match message {
        Message::Splash(_) => Some(Target::Splash),
        Message::Explorer(_) => Some(Target::Explorer),
        Message::HelpModal(_) => Some(Target::HelpModal),
        Message::NoteEditor(_) => Some(Target::NoteEditor),
        Message::VaultSelectorModal(_) => Some(Target::VaultSelectorModal),
        _ => None,
    }
}

/// The message of a command goes to the pane that the command names, and no
/// two commands send the same message.
pub proof fn lemma_commands_reach_their_pane(a: Command, b: Command)
    ensures
        message_target(a.message()) == a.target(),
        a.message() == b.message() ==> a == b,
{
}

impl From<Command> for Message {
    fn from(value: Command) -> (message: Self)
        ensures
            message == value.message(),
    {
        match value {
            Command::Quit => Message::Quit,
            Command::SplashUp => Message::Splash(splash::Message::Up),
            Command::SplashDown => Message::Splash(splash::Message::Down),
            Command::SplashOpen => Message::Splash(splash::Message::Open),
            Command::ExplorerUp => Message::Explorer(explorer::Message::Up),
            Command::ExplorerDown => Message::Explorer(explorer::Message::Down),
            Command::ExplorerOpen => Message::Explorer(explorer::Message::Open),
            Command::ExplorerSort => Message::Explorer(explorer::Message::Sort),
            Command::ExplorerToggle => Message::Explorer(explorer::Message::Toggle),
            Command::ExplorerSwitchPane => Message::Explorer(explorer::Message::SwitchPane),
            Command::ExplorerScrollUpOne => Message::Explorer(
                explorer::Message::ScrollUp(ScrollAmount::One),
            ),
            Command::ExplorerScrollDownOne => Message::Explorer(
                explorer::Message::ScrollDown(ScrollAmount::One),
            ),
            Command::ExplorerScrollUpHalfPage => Message::Explorer(
                explorer::Message::ScrollUp(ScrollAmount::HalfPage),
            ),
            Command::ExplorerScrollDownHalfPage => Message::Explorer(
                explorer::Message::ScrollDown(ScrollAmount::HalfPage),
            ),
            Command::HelpModalScrollUpOne => Message::HelpModal(
                help_modal::Message::ScrollUp(ScrollAmount::One),
            ),
            Command::HelpModalScrollDownOne => Message::HelpModal(
                help_modal::Message::ScrollDown(ScrollAmount::One),
            ),
            Command::HelpModalScrollUpHalfPage => Message::HelpModal(
                help_modal::Message::ScrollUp(ScrollAmount::HalfPage),
            ),
            Command::HelpModalScrollDownHalfPage => Message::HelpModal(
                help_modal::Message::ScrollDown(ScrollAmount::HalfPage),
            ),
            Command::HelpModalToggle => Message::HelpModal(help_modal::Message::Toggle),
            Command::HelpModalClose => Message::HelpModal(help_modal::Message::Close),
            Command::NoteEditorScrollUpOne => Message::NoteEditor(
                note_editor::Message::ScrollUp(ScrollAmount::One),
            ),
            Command::NoteEditorScrollDownOne => Message::NoteEditor(
                note_editor::Message::ScrollDown(ScrollAmount::One),
            ),
            Command::NoteEditorScrollUpHalfPage => Message::NoteEditor(
                note_editor::Message::ScrollUp(ScrollAmount::HalfPage),
            ),
            Command::NoteEditorScrollDownHalfPage => Message::NoteEditor(
                note_editor::Message::ScrollDown(ScrollAmount::HalfPage),
            ),
            Command::NoteEditorSwitchPane => Message::NoteEditor(note_editor::Message::SwitchPane),
            Command::NoteEditorCursorUp => Message::NoteEditor(note_editor::Message::CursorUp),
            Command::NoteEditorCursorDown => Message::NoteEditor(note_editor::Message::CursorDown),
            Command::NoteEditorToggleExplorer => Message::NoteEditor(
                note_editor::Message::ToggleExplorer,
            ),
            Command::NoteEditorExperimentalSetEditMode => Message::NoteEditor(
                note_editor::Message::EditMode,
            ),
            Command::NoteEditorExperimentalSetReadMode => Message::NoteEditor(
                note_editor::Message::ReadMode,
            ),
            Command::NoteEditorExperimentalSave => Message::NoteEditor(note_editor::Message::Save),
            Command::NoteEditorExperimentalExitMode => Message::NoteEditor(
                note_editor::Message::ExitMode,
            ),
            Command::NoteEditorExperimentalCursorWordForward => Message::NoteEditor(
                note_editor::Message::CursorWordForward,
            ),
            Command::NoteEditorExperimentalCursorWordBackward => Message::NoteEditor(
                note_editor::Message::CursorWordBackward,
            ),
            Command::NoteEditorExperimentalCursorLeft => Message::NoteEditor(
                note_editor::Message::CursorLeft,
            ),
            Command::NoteEditorExperimentalCursorRight => Message::NoteEditor(
                note_editor::Message::CursorRight,
            ),
            Command::VaultSelectorModalClose => Message::VaultSelectorModal(
                vault_selector_modal::Message::Close,
            ),
            Command::VaultSelectorModalToggle => Message::VaultSelectorModal(
                vault_selector_modal::Message::Toggle,
            ),
            Command::VaultSelectorModalUp => Message::VaultSelectorModal(
                vault_selector_modal::Message::Up,
            ),
            Command::VaultSelectorModalDown => Message::VaultSelectorModal(
                vault_selector_modal::Message::Down,
            ),
            Command::VaultSelectorModalOpen => Message::VaultSelectorModal(
                vault_selector_modal::Message::Select,
            ),
        }
    }
}

impl FromSpecImpl<Command> for Message {
    open spec fn obeys_from_spec() -> bool {
        true
    }

    open spec fn from_spec(value: Command) -> Self {
        value.message()
    }
}

} // verus!
