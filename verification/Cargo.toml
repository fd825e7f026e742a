[package]
name = "issue_tracker"
version = "0.1.0"
edition = "2021"
publish = false

[dependencies]
anyhow = "=1.0.104"
chrono = { version = "=0.4.45", features = ["serde"] }
clap = { version = "=4.6.7", features = ["derive"] }
clap_complete = "=4.6.11"
clap_complete_nushell = "=4.6.2"
colored = "=3.1.1"
serde = { version = "=1.0.229", features = ["derive"] }
serde_json = "=1.0.154"
tempfile = "3"
terminal_size = "=0.4.4"
unicode-width = "=0.2.3"
