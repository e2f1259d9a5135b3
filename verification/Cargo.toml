[package]
name = "pexer"
version = "0.1.0"
edition = "2021"
publish = false

[dependencies]
goblin = "0.10"
cross-authenticode = "*"
iced-x86 = "1"
petgraph = "*"
layout-rs = "*"
regex = "1"
serde = { version = "1", features = ["derive"] }
serde_json = "1"
toml = "0.8"
chrono = "0.4"
reqwest = { version = "0.12", default-features = false, features = ["blocking", "rustls-tls"] }
clap = { version = "4", features = ["derive"] }
console = "*"
indicatif = "*"
prettytable-rs = "*"
sha2 = "0.10"
entropy = "*"
walkdir = "2"
yara-x = { version = "1", default-features = false }
