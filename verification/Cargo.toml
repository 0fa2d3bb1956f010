[package]
name = "position_manager"
version = "0.1.0"
edition = "2021"
publish = false

[dependencies]
rust_decimal = "1"
memchr = "2"
chrono = { version = "0.4", default-features = false, features = ["clock", "std", "now"] }
serde = { version = "1", features = ["derive"] }
serde_json = "1"
anyhow = "1"
dotenvy = "0.15"
once_cell = "1"
futures-util = "0.3"
tokio = { version = "1", features = ["rt-multi-thread", "macros", "sync", "time"] }
tokio-tungstenite = "0.26"
reqwest = { version = "0.12", default-features = false, features = ["json", "http2"] }
crossterm = "0.28"
ratatui = { version = "0.29", default-features = false, features = ["crossterm"] }
rusqlite = { version = "0.37", features = ["bundled"] }
rust_decimal_macros = "1"
