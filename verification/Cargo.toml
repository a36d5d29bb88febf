[package]
name = "cptool"
version = "0.1.0"
edition = "2021"
publish = false

[dependencies]
anyhow = "1"
clap = { version = "4", features = ["derive"] }
fs4 = "*"
process_control = "*"
serde = { version = "1", features = ["derive"] }
serde_json = "1"
serde_yml = "*"
sha2 = "0.10"
