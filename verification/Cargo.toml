[package]
name = "basalt"
version = "0.1.0"
edition = "2021"
publish = false

[dependencies]
pulldown-cmark = { version = "0.13", default-features = false }
ratatui = { version = "0.29", features = ["unstable-widget-ref"] }
tui-textarea = { version = "0.7" }
textwrap = { version = "0.16" }
serde = { version = "1", features = ["derive"] }
serde_json = { version = "1" }
toml = { version = "0.8" }
dirs = { version = "6" }
etcetera = { version = "0.10" }
thiserror = { version = "2" }
