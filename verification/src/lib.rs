pub mod app;
pub mod config;
pub mod explorer;
pub mod help_modal;
pub mod list_state;
pub mod markdown;
pub mod name_map;
pub mod note_editor;
pub mod obsidian;
pub mod outline;
pub mod sidepanel;
pub mod start;
pub mod statusbar;
pub mod stylized_text;
pub mod text;
pub mod text_counts;
pub mod vault_selector;
pub mod vault_selector_modal;
