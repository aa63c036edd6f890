[package]
name = "task_tracker"
version = "0.1.0"
edition = "2021"
publish = false

[dependencies]
chrono = "0.4"
clap = "4"
rusqlite = { version = "*", features = ["bundled", "chrono"] }
