[package]
name = "economysim"
version = "0.1.0"
edition = "2021"
publish = false

[dependencies]
anyhow = "1"
clap = { version = "4", features = ["derive"] }
crossterm = "0.28"
quick-xml = { version = "0.36", features = ["serialize"] }
rand = "0.8"
rand_chacha = "0.3"
ratatui = "0.29"
serde = { version = "1", features = ["derive"] }
smallvec = "1"
toml = "0.8"
