use basalt::obsidian::vault::VaultError;
use basalt::obsidian::vault_entry::{search_entries, visible_entries};
use basalt::obsidian::{FindNote, Note, ObsidianConfig, Vault, VaultEntry};

fn note(name: &str, path: &str) -> Note {
    Note {
        name: name.to_string(),
        path: path.to_string(),
    }
}

fn dir(name: &str, path: &str, entries: Vec<VaultEntry>) -> VaultEntry {
    VaultEntry::Directory {
        name: name.to_string(),
        path: path.to_string(),
        entries,
    }
}

fn vault(name: &str, open: bool) -> Vault {
    Vault {
        name: name.to_string(),
        path: format!("/vaults/{name}"),
        open,
        ts: 7,
    }
}

#[test]
fn vaults_come_in_the_order_of_their_names() {
    let config = ObsidianConfig::from_vaults(vec![
        vault("Work", false),
        vault("Obsidian", true),
        vault("notes", true),
    ]);
    let names: Vec<&str> = config.vaults().iter().map(|v| v.name.as_str()).collect();
    assert_eq!(names, vec!["Obsidian", "Work", "notes"]);
    assert_eq!(config.get_vault_by_name("Work"), Some(&vault("Work", false)));
    assert_eq!(config.get_vault_by_name("work"), None);
    assert_eq!(config.get_open_vault(), Some(&vault("Obsidian", true)));
}

#[test]
fn later_vault_of_the_same_name_stays() {
    let mut later = vault("Work", true);
    later.ts = 9;
    let config = ObsidianConfig::from_vaults(vec![vault("Work", false), later.clone()]);
    assert_eq!(config.vaults(), vec![&later]);
}

#[test]
fn config_without_open_vault_has_none() {
    let config = ObsidianConfig::from_vaults(vec![vault("a", false), vault("b", false)]);
    assert_eq!(config.get_open_vault(), None);
    assert_eq!(ObsidianConfig::new().vaults().len(), 0);
    assert_eq!(ObsidianConfig::new().get_open_vault(), None);
    assert_eq!(Vault::default().name, "");
}

#[test]
fn vault_from_parts_needs_a_name() {
    assert_eq!(
        Vault::from_parts(Some("v".into()), "/p/v".into(), None, 3),
        Ok(Vault {
            name: "v".into(),
            path: "/p/v".into(),
            open: false,
            ts: 3
        })
    );
    assert_eq!(
        Vault::from_parts(Some("v".into()), "/p/v".into(), Some(true), 3)
            .unwrap()
            .open,
        true
    );
    assert_eq!(
        Vault::from_parts(None, "/".into(), Some(true), 3),
        Err(VaultError::MissingName)
    );
}

#[test]
fn entries_leave_out_hidden_files_and_directories() {
    let root = dir(
        "vault",
        "/vault",
        vec![
            dir(".obsidian", "/vault/.obsidian", vec![]),
            VaultEntry::File(note("a", "/vault/a.md")),
            VaultEntry::File(note(".hidden", "/vault/.hidden.md")),
            dir("sub", "/vault/sub", vec![VaultEntry::File(note(".x", "/vault/sub/.x.md"))]),
        ],
    );
    let vault = vault("vault", true);
    assert_eq!(
        vault.entries(Some(root)),
        vec![
            VaultEntry::File(note("a", "/vault/a.md")),
            dir("sub", "/vault/sub", vec![VaultEntry::File(note(".x", "/vault/sub/.x.md"))]),
        ]
    );
    assert_eq!(vault.entries(None), vec![]);
    assert_eq!(
        vault.entries(Some(VaultEntry::File(note("a", "/vault/a.md")))),
        vec![]
    );
    assert_eq!(visible_entries(vec![]), vec![]);
}

#[test]
fn find_note_looks_below_matching_directories() {
    let entries = vec![
        VaultEntry::File(note("a", "/vault/a.md")),
        dir(
            "sub",
            "/vault/sub",
            vec![
                VaultEntry::File(note("b", "/vault/sub/b.md")),
                dir(
                    "deep",
                    "/vault/sub/deep",
                    vec![VaultEntry::File(note("c", "/vault/sub/deep/c.md"))],
                ),
            ],
        ),
        dir(
            "other",
            "/vault/other",
            vec![VaultEntry::File(note("stray", "/vault/sub/stray.md"))],
        ),
    ];
    assert_eq!(
        entries.find_note("/vault/sub/deep/c.md"),
        Some(&note("c", "/vault/sub/deep/c.md"))
    );
    assert_eq!(entries.find_note("/vault/a.md"), Some(&note("a", "/vault/a.md")));
    assert_eq!(entries.find_note("/vault/missing.md"), None);
    assert_eq!(entries.find_note("/vault/sub/stray.md"), None);
    assert_eq!(entries[1].find_note("/vault/sub/b.md"), Some(&note("b", "/vault/sub/b.md")));
    assert_eq!(entries[1].name(), "sub");
    assert_eq!(entries[0].name(), "a");
    assert_eq!(entries[1].clone(), entries[1]);
    assert_eq!(Note::default(), note("", ""));
}

#[test]
fn a_file_with_the_path_is_found_behind_directories_that_are_passed_over() {
    let entries = vec![
        dir(
            "other",
            "/elsewhere",
            vec![VaultEntry::File(note("hidden", "/vault/a.md"))],
        ),
        VaultEntry::File(note("b", "/vault/b.md")),
        VaultEntry::File(note("first", "/vault/a.md")),
        VaultEntry::File(note("second", "/vault/a.md")),
    ];
    assert_eq!(
        search_entries(&entries, "/vault/a.md"),
        Some(&note("first", "/vault/a.md"))
    );
    assert_eq!(entries[2].search("/vault/a.md"), Some(&note("first", "/vault/a.md")));
    assert_eq!(entries[2].search("/vault/b.md"), None);
    assert_eq!(entries[0].search("/vault/a.md"), None);
    assert_eq!(
        entries[0].search("/elsewhere/a.md"),
        None
    );
    let below = dir(
        "vault",
        "/vault",
        vec![
            VaultEntry::File(note("b", "/vault/b.md")),
            VaultEntry::File(note("a", "/vault/a.md")),
        ],
    );
    assert_eq!(below.search("/vault/a.md"), Some(&note("a", "/vault/a.md")));
    assert_eq!(below.search("/vault"), None);
    assert_eq!(search_entries(&Vec::new(), "/vault/a.md"), None);
}
