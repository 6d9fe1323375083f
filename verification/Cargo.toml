[package]
name = "runtime_checker"
version = "0.1.0"
edition = "2021"
publish = false

[dependencies]
anyhow = "=1.0.104"
clap = { version = "=4.6.7", features = ["derive"] }
serde = { version = "=1.0.229", features = ["derive"] }
serde_json = "=1.0.154"
node-semver = "=2.2.0"
aho-corasick = "=1.1.5"
ignore = "=0.4.34"
fff-grep = "=0.11.0"
anstyle = "=1.0.14"
terminal_size = "=0.4.4"
