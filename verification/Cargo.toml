[package]
name = "beads_commands"
version = "0.1.0"
edition = "2021"
publish = false

[dependencies]
chrono = { version = "=0.4.45", features = ["serde"] }
crossterm = "=0.29.0"
dunce = "=1.0.5"
fsqlite-types = { version = "=0.4.13", default-features = false }
regex = "=1.13.1"
rich_rust = "=0.2.3"
rustix = { version = "=1.1.6", features = ["fs"] }
serde = { version = "=1.0.229", features = ["derive"] }
serde_json = "=1.0.154"
sha2 = "=0.10.9"
similar = "=2.7.0"
tempfile = "=3.27.0"
unicode-width = "=0.2.3"
