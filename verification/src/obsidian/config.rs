use crate::name_map::NameMap;
use crate::obsidian::vault::Vault;
use vstd::prelude::*;
use vstd::string::StringExecFns;

verus! {

/// Represents the Obsidian configuration, typically loaded from an
/// `obsidian.json` file.
#[derive(Debug, PartialEq)]
pub struct ObsidianConfig {
    /// A mapping of vault (folder) names to [`Vault`] definitions.
    pub vaults: NameMap<Vault>,
}

impl ObsidianConfig {
    /// The invariant of the configuration: the names of its vaults ascend.
    pub open spec fn well_formed(&self) -> bool {
        self.vaults.well_formed()
    }

    /// Tests the invariant of the configuration.
    pub fn is_well_formed(&self) -> (b: bool)
        ensures
            b == self.well_formed(),
    {
        self.vaults.is_well_formed()
    }

    /// A configuration without vaults.
    pub fn new() -> (config: Self)
        ensures
            config.well_formed(),
            config.vaults.entries@.len() == 0,
    {
        ObsidianConfig { vaults: NameMap::new() }
    }

    /// The configuration that holds the given vaults, each under its own name;
    /// of two vaults with one name the later one stays.
    pub fn from_vaults(vaults: Vec<Vault>) -> (config: Self)
        ensures
            config.well_formed(),
            forall|name: Seq<char>|
                config.vaults.has(name) <==> exists|i: int|
                    0 <= i < vaults.len() && (#[trigger] vaults[i]).name@ == name,
            forall|i: int|
                0 <= i < vaults.len() && (forall|j: int|
                    i < j < vaults.len() ==> (#[trigger] vaults[j]).name@ != vaults[i].name@)
                    ==> config.vaults.value((#[trigger] vaults[i]).name@) == vaults[i],
    {
        let ghost all = vaults@;
        let mut config = ObsidianConfig::new();
        for vault in iter: vaults
            invariant
                iter.seq() == all,
                config.well_formed(),
                forall|name: Seq<char>|
                    config.vaults.has(name) <==> exists|i: int|
                        0 <= i < iter.index() && (#[trigger] all[i]).name@ == name,
                forall|i: int|
                    0 <= i < iter.index() && (forall|j: int|
                        i < j < iter.index() ==> (#[trigger] all[j]).name@ != all[i].name@)
                        ==> config.vaults.value((#[trigger] all[i]).name@) == all[i],
        {
            let ghost before = config;
            let ghost at = iter.index();
            let name = vault.name.clone();
            config.vaults.insert(name, vault);
            proof {
                assert(all[at as int] == vault);
                assert forall|name: Seq<char>|
                    config.vaults.has(name) <==> exists|i: int|
                        0 <= i < at + 1 && (#[trigger] all[i]).name@ == name by {
                    if name != vault.name@ {
                        if before.vaults.has(name) {
                            let i = choose|i: int|
                                0 <= i < at && (#[trigger] all[i]).name@ == name;
                            assert(0 <= i < at + 1 && all[i].name@ == name);
                        }
                        if exists|i: int| 0 <= i < at + 1 && (#[trigger] all[i]).name@ == name {
                            let i = choose|i: int|
                                0 <= i < at + 1 && (#[trigger] all[i]).name@ == name;
                            assert(0 <= i < at && all[i].name@ == name);
                        }
                    } else {
                        assert(0 <= at < at + 1 && all[at as int].name@ == name);
                    }
                }
                assert forall|i: int|
                    0 <= i < at + 1 && (forall|j: int|
                        i < j < at + 1 ==> (#[trigger] all[j]).name@
                            != all[i].name@) implies config.vaults.value(
                    (#[trigger] all[i]).name@,
                ) == all[i] by {
                    if i < at {
                        assert(all[at as int].name@ != all[i].name@);
                        assert(before.vaults.has(all[i].name@));
                    }
                }
            }
        }
        config
    }

    /// Returns the vaults in the configuration, in the order of their names.
    pub fn vaults(&self) -> (res: Vec<&Vault>)
        ensures
            res@.len() == self.vaults.entries@.len(),
            forall|i: int|
                0 <= i < res@.len() ==> *(#[trigger] res@[i]) == self.vaults.entries@[i].1,
    {
        self.vaults.values()
    }

    /// Finds a vault by name, returning a reference if it exists.
    pub fn get_vault_by_name(&self, name: &str) -> (res: Option<&Vault>)
        requires
            self.well_formed(),
        ensures
            res is Some <==> self.vaults.has(name@),
            res is Some ==> *res->0 == self.vaults.value(name@),
    {
        self.vaults.get(name)
    }

    /// Gets the currently opened vault marked by Obsidian: the first vault, in
    /// the order of the names, that is marked open.
    pub fn get_open_vault(&self) -> (res: Option<&Vault>)
        ensures
            match res {
                Some(vault) => exists|i: int|
                    0 <= i < self.vaults.entries@.len() && *vault == (
                    #[trigger] self.vaults.entries@[i]).1 && vault.open && forall|j: int|
                        0 <= j < i ==> !(#[trigger] self.vaults.entries@[j]).1.open,
                None => forall|i: int|
                    0 <= i < self.vaults.entries@.len() ==> !(
                    #[trigger] self.vaults.entries@[i]).1.open,
            },
    {
        let mut i: usize = 0;
        while i < self.vaults.entries.len()
            invariant
                i <= self.vaults.entries.len(),
                forall|j: int| 0 <= j < i ==> !(#[trigger] self.vaults.entries@[j]).1.open,
            decreases self.vaults.entries.len() - i,
        {
            if self.vaults.entries[i].1.open {
                return Some(&self.vaults.entries[i].1);
            }
            i += 1;
        }
        None
    }
}

/// A path with each tilde replaced by the home directory.
pub open spec fn home_expanded(path: Seq<char>, home: Seq<char>) -> Seq<char>
    decreases path.len(),
{
    if path.len() == 0 {
        Seq::empty()
    } else if path.last() == '~' {
        home_expanded(path.drop_last(), home) + home
    } else {
        home_expanded(path.drop_last(), home).push(path.last())
    }
}

/// Replaces each tilde of a path by the home directory.
pub fn expand_home(path: &str, home: &str) -> (expanded: String)
    ensures
        expanded@ == home_expanded(path@, home@),
{
    let mut expanded = String::new();
    for c in iter: path.chars()
        invariant
            iter.seq() == path@,
            expanded@ == home_expanded(path@.take(iter.index() as int), home@),
    {
        proof {
            assert(path@.take(iter.index() + 1).drop_last() =~= path@.take(iter.index() as int));
        }
        if c == '~' {
            expanded.append(home);
        } else {
            expanded.push(c);
        }
    }
    assert(path@.take(path@.len() as int) =~= path@);
    expanded
}

} // verus!
