[package]
name = "snake"
version = "0.1.0"
edition = "2021"

[dependencies]
crossterm = "0.28"
itertools = "0.13"
rand = "0.8"
ratatui = "0.29"
serde = { version = "1", features = ["derive"] }
