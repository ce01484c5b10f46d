[package]
name = "semantic-release-cargo"
version = "0.1.0"
edition = "2021"
publish = false

[dependencies]
anyhow = "1"
cargo-config2 = "0.1"
clap = { version = "4", features = ["derive"] }
guppy = "0.17"
log = "0.4"
serde = { version = "1", features = ["derive"] }
serde_json = "1"
thiserror = "1"
toml_edit = "0.22"
url = { version = "2", features = ["serde"] }
