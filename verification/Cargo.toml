[package]
name = "clippie"
version = "1.0.0"
edition = "2021"
publish = false

[dependencies]
chrono = "0.4"
clap = { version = "4", features = ["derive"] }
crossterm = "0.27"
dirs = "5"
objc2 = "0.5"
objc2-foundation = { version = "0.2", features = ["NSString"] }
once_cell = "1"
ratatui = "0.26"
regex = "1"
rusqlite = { version = "0.31", features = ["bundled"] }
serde = { version = "1", features = ["derive"] }
serde_json = "1"
sha2 = "0.10"
thiserror = "1"
tokio = { version = "1", features = ["full"] }

[dev-dependencies]
tempfile = "3"
