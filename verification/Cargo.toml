[package]
name = "battery_pack"
version = "0.1.0"
edition = "2021"
publish = false

[dependencies]
anyhow = "=1.0.104"
clap = { version = "=4.6.7", features = ["derive"] }
serde = { version = "=1.0.229", features = ["derive"] }
toml = "=1.1.8"
toml_edit = "=0.25.17"
semver = "=1.0.28"
cargo_metadata = "=0.23.1"
dialoguer = "=0.12.0"
console = "=0.16.6"
minijinja = "=3.0.5"
handlebars = "=6.4.4"
walkdir = "=2.5.0"
similar = "=2.7.0"
yaml-rust2 = "=0.13.0"
tempfile = "=3.27.0"
flate2 = "=1.1.10"
tar = "=0.4.46"
reqwest = { version = "=0.12.28", default-features = false, features = ["blocking", "json", "rustls-tls"] }
urlencoding = "=2.1.3"
syn = { version = "=2.0.119", features = ["full"] }
regex = "=1.13.1"
thiserror = "=2.0.21"
ratatui = "*"
crossterm = "*"
open = "*"
syntect = { version = "*", default-features = false, features = ["default-fancy"] }
two-face = { version = "*", default-features = false, features = ["syntect-fancy"] }
