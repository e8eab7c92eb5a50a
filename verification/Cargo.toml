[package]
name = "deploy_helper"
version = "1.0.3"
edition = "2021"
publish = false

[dependencies]
clap = "4"
colored = "2"
indexmap = { version = "2", features = ["serde"] }
minijinja = "2"
serde = { version = "1", features = ["derive"] }
serde_json = "1"
serde_yaml = "0.9"
shell-words = "1"
simple-expand-tilde = "*"
ssh2 = "0.9"
