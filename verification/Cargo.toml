[package]
name = "savepath"
version = "0.1.0"
edition = "2021"
publish = false

[dependencies]
anyhow = "1"
clap = { version = "4", features = ["cargo"] }
crossterm = "0.27"
directories = "5"
prettytable-rs = { version = "0.10", default-features = false }
ron = "0.8"
serde = { version = "1", features = ["derive"] }
