pub mod key_binding;

use crate::app::Message;
use crate::name_map::NameMap;
use key_binding::Command;
use vstd::prelude::*;
use vstd::string::StringExecFns;

pub use key_binding::{Key, KeyBinding, KeyCode, KeyModifiers};

verus! {

/// Why a configuration was refused.
#[derive(Debug, PartialEq)]
pub enum ConfigError {
    /// A key binding that cannot be read.
    InvalidKeybinding(String),
    /// A key description whose last word names no key.
    UnknownKeyCode(String),
    /// A key description with a word that names no modifier.
    UnknownKeyModifiers(String),
    /// No configuration file of the user was found.
    UserConfigNotFound(String),
}

impl ConfigError {
    /// What the error says, as text.
    pub open spec fn text(self) -> Seq<char> {
        match self {
            ConfigError::InvalidKeybinding(detail) => "Invalid keybinding: "@ + detail@,
            ConfigError::UnknownKeyCode(detail) => "Unknown code: "@ + detail@,
            ConfigError::UnknownKeyModifiers(detail) => "Unknown modifiers: "@ + detail@,
            ConfigError::UserConfigNotFound(detail) => "User config not found: "@ + detail@,
        }
    }

    /// What the error says.
    pub fn message(&self) -> (message: String)
        ensures
            message@ == self.text(),
    {
        match self {
            ConfigError::InvalidKeybinding(detail) => "Invalid keybinding: ".to_owned().concat(
                detail.as_str(),
            ),
            ConfigError::UnknownKeyCode(detail) => "Unknown code: ".to_owned().concat(
                detail.as_str(),
            ),
            ConfigError::UnknownKeyModifiers(detail) => "Unknown modifiers: ".to_owned().concat(
                detail.as_str(),
            ),
            ConfigError::UserConfigNotFound(detail) => "User config not found: ".to_owned().concat(
                detail.as_str(),
            ),
        }
    }

    /// The error for a key binding that cannot be read.
    pub fn custom(message: String) -> (error: Self)
        ensures
            error matches ConfigError::InvalidKeybinding(detail) && detail@ == message@,
    {
        ConfigError::InvalidKeybinding(message)
    }
}

/// The key bindings of one pane: the message that each key sends, by the text
/// of the key.
#[derive(Debug, PartialEq)]
pub struct ConfigSection {
    pub key_bindings: NameMap<Message>,
}

impl Clone for ConfigSection {
    fn clone(&self) -> (res: Self)
        ensures
            self.well_formed() ==> res.well_formed() && res.layers(*self, None, None),
    {
        ConfigSection { key_bindings: self.key_bindings.copy() }
    }
}

impl ConfigSection {
    /// The invariant of a section: its keys ascend.
    pub open spec fn well_formed(&self) -> bool {
        self.key_bindings.well_formed()
    }

    /// Whether the section binds the key.
    pub open spec fn binds(&self, key: Seq<char>) -> bool {
        self.key_bindings.has(key)
    }

    /// The message that the section binds the key to.
    pub open spec fn message(&self, key: Seq<char>) -> Message {
        self.key_bindings.value(key)
    }

    /// Whether `self` is `base` with `over` laid over it, but for the key
    /// `except`: it binds the keys that either of the two binds, with the
    /// message of `over` where `over` binds the key and that of `base` where it
    /// does not.
    pub open spec fn layers(
        &self,
        base: ConfigSection,
        over: Option<ConfigSection>,
        except: Option<Seq<char>>,
    ) -> bool {
        forall|key: Seq<char>| except != Some(key) ==> #[trigger] layers_at(*self, base, over, key)
    }

    /// Tests the invariant of the section.
    pub fn is_well_formed(&self) -> (b: bool)
        ensures
            b == self.well_formed(),
    {
        self.key_bindings.is_well_formed()
    }

    /// A section without key bindings.
    pub fn new() -> (section: Self)
        ensures
            section.well_formed(),
            section.key_bindings.entries@.len() == 0,
            forall|key: Seq<char>| !section.binds(key),
    {
        ConfigSection { key_bindings: NameMap::new() }
    }

    /// The section that binds each key of the list to the message of its
    /// command; of two bindings of one key the later one stays.
    pub fn from_bindings(bindings: Vec<(String, Command)>) -> (section: Self)
        ensures
            section.well_formed(),
            forall|key: Seq<char>| #[trigger]
                section.binds(key) <==> exists|i: int|
                    0 <= i < bindings.len() && (#[trigger] bindings[i]).0@ == key,
            forall|i: int|
                0 <= i < bindings.len() && (forall|j: int|
                    i < j < bindings.len() ==> (#[trigger] bindings[j]).0@ != bindings[i].0@)
                    ==> section.message((#[trigger] bindings[i]).0@)
                    == bindings[i].1.message(),
    {
        let ghost all = bindings@;
        let mut section = ConfigSection::new();
        for binding in iter: bindings
            invariant
                iter.seq() == all,
                section.well_formed(),
                forall|key: Seq<char>| #[trigger]
                    section.binds(key) <==> exists|i: int|
                        0 <= i < iter.index() && (#[trigger] all[i]).0@ == key,
                forall|i: int|
                    0 <= i < iter.index() && (forall|j: int|
                        i < j < iter.index() ==> (#[trigger] all[j]).0@ != all[i].0@)
                        ==> section.message((#[trigger] all[i]).0@) == all[i].1.message(),
        {
            let ghost before = section;
            let ghost at = iter.index();
            let (key, command) = binding;
            section.key_bindings.insert(key, Message::from(command));
            proof {
                assert(all[at as int] == binding);
                assert forall|text: Seq<char>| #[trigger]
                    section.binds(text) <==> exists|i: int|
                        0 <= i < at + 1 && (#[trigger] all[i]).0@ == text by {
                    if text != key@ {
                        if before.binds(text) {
                            let i = choose|i: int|
                                0 <= i < at && (#[trigger] all[i]).0@ == text;
                            assert(0 <= i < at + 1 && all[i].0@ == text);
                        }
                        if exists|i: int| 0 <= i < at + 1 && (#[trigger] all[i]).0@ == text {
                            let i = choose|i: int|
                                0 <= i < at + 1 && (#[trigger] all[i]).0@ == text;
                            assert(0 <= i < at && all[i].0@ == text);
                        }
                    } else {
                        assert(0 <= at < at + 1 && all[at as int].0@ == text);
                    }
                }
                assert forall|i: int|
                    0 <= i < at + 1 && (forall|j: int|
                        i < j < at + 1 ==> (#[trigger] all[j]).0@
                            != all[i].0@) implies section.message((#[trigger] all[i]).0@)
                    == all[i].1.message() by {
                    if i < at {
                        assert(all[at as int].0@ != all[i].0@);
                        assert(before.binds(all[i].0@));
                    }
                }
            }
        }
        section
    }

    /// Takes self and another config and merges the `key_bindings` together
    /// overwriting the existing entries with the value from another config.
    pub fn merge_key_bindings(&mut self, config: Self)
        requires
            old(self).well_formed(),
            config.well_formed(),
        ensures
            final(self).well_formed(),
            final(self).layers(*old(self), Some(config), None),
    {
        self.key_bindings.merge(config.key_bindings);
    }

    /// The message that a key sends, by the text of the key.
    pub fn key_to_message(&self, key: &str) -> (message: Option<Message>)
        requires
            self.well_formed(),
        ensures
            message is Some <==> self.binds(key@),
            message is Some ==> message->0 == self.message(key@),
    {
        match self.key_bindings.get(key) {
            Some(message) => Some(*message),
            None => None,
        }
    }
}

/// What layering says of one key.
pub open spec fn layers_at(
    section: ConfigSection,
    base: ConfigSection,
    over: Option<ConfigSection>,
    key: Seq<char>,
) -> bool {
    let laid = over is Some && over->0.binds(key);
    &&& section.binds(key) <==> (base.binds(key) || laid)
    &&& laid ==> section.message(key) == over->0.message(key)
    &&& base.binds(key) && !laid ==> section.message(key) == base.message(key)
}

/// A copy of a section layers what the section layers.
pub proof fn lemma_copy_layers(
    copy: ConfigSection,
    section: ConfigSection,
    base: ConfigSection,
    over: Option<ConfigSection>,
    except: Option<Seq<char>>,
)
    requires
        copy.layers(section, None, None),
        section.layers(base, over, except),
    ensures
        copy.layers(base, over, except),
{
    assert forall|key: Seq<char>| except != Some(key) implies #[trigger] layers_at(
        copy,
        base,
        over,
        key,
    ) by {
        assert(layers_at(copy, section, None, key));
        assert(layers_at(section, base, over, key));
    }
}

/// The configuration: whether the experimental editor is switched on, and the
/// key bindings of each pane.
#[derive(Debug, PartialEq)]
pub struct Config {
    pub experimental_editor: bool,
    pub global: ConfigSection,
    pub splash: ConfigSection,
    pub explorer: ConfigSection,
    pub help_modal: ConfigSection,
    pub note_editor: ConfigSection,
    pub vault_selector_modal: ConfigSection,
}

/// The panes that a configuration has a section for.
#[derive(Debug, Clone, Copy, PartialEq, Eq, Structural)]
pub enum Pane {
    Global,
    Splash,
    Explorer,
    HelpModal,
    NoteEditor,
    VaultSelectorModal,
}

/// The section of a pane in a configuration that may be missing.
pub open spec fn section_of(config: Option<Config>, pane: Pane) -> Option<ConfigSection> {
    match config {
        Some(config) => Some(config.section(pane)),
        None => None,
    }
}

impl Default for Config {
    fn default() -> (config: Self)
        ensures
            config.well_formed(),
            !config.experimental_editor,
            forall|key: Seq<char>|
                !config.global.binds(key) && !config.splash.binds(key) && !config.explorer.binds(
                    key,
                ) && !config.help_modal.binds(key) && !config.note_editor.binds(key)
                    && !config.vault_selector_modal.binds(key),
    {
        Config {
            experimental_editor: false,
            global: ConfigSection::new(),
            splash: ConfigSection::new(),
            explorer: ConfigSection::new(),
            help_modal: ConfigSection::new(),
            note_editor: ConfigSection::new(),
            vault_selector_modal: ConfigSection::new(),
        }
    }
}

impl Clone for Config {
    fn clone(&self) -> (res: Self)
        ensures
            self.well_formed() ==> res.well_formed() && res.layers(*self, None, None),
    {
        Config {
            experimental_editor: self.experimental_editor,
            global: self.global.clone(),
            splash: self.splash.clone(),
            explorer: self.explorer.clone(),
            help_modal: self.help_modal.clone(),
            note_editor: self.note_editor.clone(),
            vault_selector_modal: self.vault_selector_modal.clone(),
        }
    }
}

impl Config {
    /// The invariant of a configuration: each section is well formed.
    pub open spec fn well_formed(&self) -> bool {
        &&& self.global.well_formed()
        &&& self.splash.well_formed()
        &&& self.explorer.well_formed()
        &&& self.help_modal.well_formed()
        &&& self.note_editor.well_formed()
        &&& self.vault_selector_modal.well_formed()
    }

    /// Whether `self` is `base` with `over` laid over it, but for the key
    /// `except` of the global section: the editor switch is that of `over`,
    /// and each section layers the sections of the two.
    pub open spec fn layers(
        &self,
        base: Config,
        over: Option<Config>,
        except: Option<Seq<char>>,
    ) -> bool {
        &&& self.experimental_editor == match over {
            Some(over) => over.experimental_editor,
            None => base.experimental_editor,
        }
        &&& self.global.layers(base.global, section_of(over, Pane::Global), except)
        &&& self.splash.layers(base.splash, section_of(over, Pane::Splash), None)
        &&& self.explorer.layers(base.explorer, section_of(over, Pane::Explorer), None)
        &&& self.help_modal.layers(base.help_modal, section_of(over, Pane::HelpModal), None)
        &&& self.note_editor.layers(base.note_editor, section_of(over, Pane::NoteEditor), None)
        &&& self.vault_selector_modal.layers(
            base.vault_selector_modal,
            section_of(over, Pane::VaultSelectorModal),
            None,
        )
    }

    /// The section of a pane.
    pub open spec fn section(&self, pane: Pane) -> ConfigSection {
        match pane {
            Pane::Global => self.global,
            Pane::Splash => self.splash,
            Pane::Explorer => self.explorer,
            Pane::HelpModal => self.help_modal,
            Pane::NoteEditor => self.note_editor,
            Pane::VaultSelectorModal => self.vault_selector_modal,
        }
    }

    /// Tests the invariant of the configuration.
    pub fn is_well_formed(&self) -> (b: bool)
        ensures
            b == self.well_formed(),
    {
        self.global.is_well_formed() && self.splash.is_well_formed()
            && self.explorer.is_well_formed() && self.help_modal.is_well_formed()
            && self.note_editor.is_well_formed() && self.vault_selector_modal.is_well_formed()
    }

    /// Takes self and another config and merges the `key_bindings` together
    /// overwriting the existing entries with the value from another config.
    /// Returns a copy of the merged configuration.
    pub fn merge(&mut self, config: Self) -> (res: Self)
        requires
            old(self).well_formed(),
            config.well_formed(),
        ensures
            final(self).well_formed(),
            final(self).layers(*old(self), Some(config), None),
            res.well_formed(),
            res.layers(*old(self), Some(config), None),
    {
        let ghost base = *self;
        self.experimental_editor = config.experimental_editor;
        self.global.merge_key_bindings(config.global);
        self.explorer.merge_key_bindings(config.explorer);
        self.splash.merge_key_bindings(config.splash);
        self.note_editor.merge_key_bindings(config.note_editor);
        self.help_modal.merge_key_bindings(config.help_modal);
        self.vault_selector_modal.merge_key_bindings(config.vault_selector_modal);
        let res = self.clone();
        proof {
            lemma_copy_layers(res.global, self.global, base.global, Some(config.global), None);
            lemma_copy_layers(res.splash, self.splash, base.splash, Some(config.splash), None);
            lemma_copy_layers(
                res.explorer,
                self.explorer,
                base.explorer,
                Some(config.explorer),
                None,
            );
            lemma_copy_layers(
                res.help_modal,
                self.help_modal,
                base.help_modal,
                Some(config.help_modal),
                None,
            );
            lemma_copy_layers(
                res.note_editor,
                self.note_editor,
                base.note_editor,
                Some(config.note_editor),
                None,
            );
            lemma_copy_layers(
                res.vault_selector_modal,
                self.vault_selector_modal,
                base.vault_selector_modal,
                Some(config.vault_selector_modal),
                None,
            );
        }
        res
    }

    /// Lays the configuration of the user, where there is one, over the base
    /// configuration, and binds the key that quits, which no configuration can
    /// take away, in the global section.
    pub fn layered(base: Config, user: Option<Config>, quit_key: String) -> (config: Self)
        requires
            base.well_formed(),
            user is Some ==> user->0.well_formed(),
        ensures
            config.well_formed(),
            config.global.binds(quit_key@),
            config.global.message(quit_key@) == Message::Quit,
            config.layers(base, user, Some(quit_key@)),
    {
        let ghost over = section_of(user, Pane::Global);
        let mut config = base;
        match user {
            Some(user) => {
                config.merge(user);
            },
            None => {},
        }
        let ghost merged = config;
        config.global.key_bindings.insert(quit_key, Message::Quit);
        proof {
            assert(merged.global.layers(base.global, over, None));
            assert forall|key: Seq<char>| Some(quit_key@) != Some(key) implies #[trigger] layers_at(
                config.global,
                base.global,
                over,
                key,
            ) by {
                assert(key != quit_key@);
                assert(layers_at(merged.global, base.global, over, key));
            }
        }
        config
    }
}

} // verus!
