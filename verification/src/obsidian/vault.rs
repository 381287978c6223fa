use crate::obsidian::vault_entry::{visible, visible_entries, VaultEntry};
use vstd::prelude::*;

verus! {

/// Represents a single Obsidian vault.
///
/// A vault is a folder containing notes and other metadata.
#[derive(Debug, PartialEq)]
pub struct Vault {
    /// The name of the vault, inferred from its directory name.
    pub name: String,
    /// Filesystem path to the vault's directory.
    pub path: String,
    /// Whether the vault is marked 'open' by Obsidian.
    pub open: bool,
    /// Timestamp of last update or creation.
    pub ts: u64,
}

/// What a [`Vault`] stands for.
pub struct VaultView {
    pub name: Seq<char>,
    pub path: Seq<char>,
    pub open: bool,
    pub ts: u64,
}

impl View for Vault {
    type V = VaultView;

    open spec fn view(&self) -> VaultView {
        VaultView { name: self.name@, path: self.path@, open: self.open, ts: self.ts }
    }
}

impl Clone for Vault {
    fn clone(&self) -> (res: Self)
        ensures
            res@ == self@,
    {
        Vault { name: self.name.clone(), path: self.path.clone(), open: self.open, ts: self.ts }
    }
}

impl Default for Vault {
    fn default() -> (vault: Self)
        ensures
            vault@ == (VaultView { name: Seq::empty(), path: Seq::empty(), open: false, ts: 0 }),
    {
        Vault { name: String::new(), path: String::new(), open: false, ts: 0 }
    }
}

/// Why the description of a vault was refused.
#[derive(Clone, Copy, Debug, PartialEq, Eq, Structural)]
pub enum VaultError {
    /// The path of the vault has no last component to name the vault by.
    MissingName,
}

impl Vault {
    /// The entries of the vault that are not hidden, given what reading the
    /// vault's directory gave: the entries of a directory whose name does not
    /// start with a dot, in the order in which they were read, and nothing
    /// where the directory could not be read or is a file.
    pub fn entries(&self, root: Option<VaultEntry>) -> (res: Vec<VaultEntry>)
        ensures
            res@ == match root {
                Some(VaultEntry::Directory { entries, .. }) => visible(entries@),
                _ => Seq::empty(),
            },
    {
        match root {
            Some(VaultEntry::Directory { entries, .. }) => visible_entries(entries),
            _ => Vec::new(),
        }
    }

    /// The vault that a stored description stands for: it is named by the last
    /// component of its path, and it counts as closed where the description
    /// does not say.
    pub fn from_parts(name: Option<String>, path: String, open: Option<bool>, ts: u64) -> (res:
        Result<Vault, VaultError>)
        ensures
            name is None ==> res == Err::<Vault, VaultError>(VaultError::MissingName),
            name is Some ==> res is Ok && res->Ok_0@ == (VaultView {
                name: name->0@,
                path: path@,
                open: open == Some(true),
                ts,
            }),
    {
        match name {
            Some(name) => Ok(
                Vault {
                    name,
                    path,
                    open: match open {
                        Some(open) => open,
                        None => false,
                    },
                    ts,
                },
            ),
            None => Err(VaultError::MissingName),
        }
    }
}

} // verus!
