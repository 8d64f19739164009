[package]
name = "git-hydra"
version = "0.1.0"
edition = "2021"
publish = false

[dependencies]
anyhow = "1"
chrono = "0.4"
clap = { version = "4", features = ["derive"] }
crossterm = "0.28"
git2 = { version = "0.19", default-features = false }
ratatui = "0.29"
tokio = { version = "1", features = ["macros", "rt-multi-thread"] }
