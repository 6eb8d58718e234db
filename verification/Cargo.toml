[package]
name = "reopal"
version = "0.1.0"
edition = "2021"
publish = false

[dependencies]
rusqlite = { version = "*", features = ["bundled"] }
byte-unit = "*"
axum = "*"
tokio = { version = "*", features = ["rt-multi-thread", "net", "macros"] }
tower-http = { version = "*", features = ["cors", "fs", "trace"] }
clap = { version = "*", features = ["derive"] }
serde = { version = "*", features = ["derive"] }
rayon = "*"
walkdir = "*"
base64 = "*"
