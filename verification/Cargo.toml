[package]
name = "gwtx"
version = "0.2.0"
edition = "2021"
publish = false

[dependencies]
chrono = "0.4"
clap = { version = "4", features = ["derive", "env"] }
clap_complete = "4"
clap_mangen = "0.2"
crossterm = "0.28"
ctrlc = { version = "3", features = ["termination"] }
dirs = "6"
globset = "0.4"
libc = "0.2"
owo-colors = "4"
ratatui = "0.29"
schemars = "1"
serde = { version = "1", features = ["derive"] }
serde_json = "1"
serde_yaml = "0.9"
sha2 = "0.10"
thiserror = "2"
unicode-width = "0.2"
walkdir = "2"
