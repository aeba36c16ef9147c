[package]
name = "tui-do-list"
version = "0.1.0"
edition = "2021"
publish = false

[dependencies]
anyhow = "1"
chrono = { version = "0.4", features = ["serde"] }
directories = "6"
ratatui = { version = "0.30", features = ["widget-calendar"] }
serde = { version = "1", features = ["derive"] }
serde_json = "1"
time = "0.3"
toml = "0.9"
toml_edit = "0.23"
