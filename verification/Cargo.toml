[package]
name = "ruststeve"
version = "0.1.0"
edition = "2021"
publish = false

[dependencies]
rusqlite = { version = "0.32.1", features = ["bundled"] }
tokio = { version = "1.48", features = ["macros", "rt-multi-thread", "time"] }
