pub mod config;
pub mod note;
pub mod vault;
pub mod vault_entry;

pub use config::ObsidianConfig;
pub use note::Note;
pub use vault::Vault;
pub use vault_entry::{FindNote, VaultEntry};
