[package]
name = "flathub_hooks"
version = "0.1.0"
edition = "2021"
publish = false

[dependencies]
elementtree = "*"
flate2 = "*"
elf = "*"
url = "*"
serde = { version = "*", features = ["derive"] }
serde_json = "*"
clap = { version = "*", features = ["derive"] }
reqwest = { version = "*", default-features = false, features = ["blocking", "json"] }
ostree = "*"
anyhow = "*"
