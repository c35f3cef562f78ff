[package]
name = "ddc"
version = "0.1.0"
edition = "2021"
publish = false

[dependencies]
anyhow = "*"
chrono = "*"
clap = { version = "*", features = ["derive"] }
crossbeam = "*"
home = "*"
humansize = "*"
indicatif = "*"
jwalk = "*"
owo-colors = "*"
ratatui = "*"
rayon = "*"
serde = { version = "*", features = ["derive"] }
tabled = "*"
textwrap = "*"
thiserror = "*"
toml = "*"
tracing = "*"
tracing-subscriber = "*"
