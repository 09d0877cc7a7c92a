[package]
name = "branchyard"
version = "0.1.0"
edition = "2021"
publish = false

[dependencies]
anyhow = "1"
clap = { version = "4", features = ["derive"] }
clap_complete = "4"
dirs = "*"
indicatif = "*"
inquire = "*"
owo-colors = "*"
serde = { version = "1", features = ["derive"] }
serde_yaml = "*"
