[package]
name = "antislop"
version = "0.1.0"
edition = "2021"
publish = false

[dependencies]
regex = "1"
semver = "1"
tree-sitter = "*"
tree-sitter-python = "*"
tree-sitter-javascript = "*"
tree-sitter-typescript = "*"
tree-sitter-rust = "*"
serde = { version = "1", features = ["derive"] }
serde_json = "1"
serde-sarif = "*"
toml = "*"
anyhow = "1"
thiserror = "*"
clap = { version = "4", features = ["derive"] }
clap_complete = "4"
ignore = "0.4"
owo-colors = "*"
dirs = "*"
tracing = "0.1"
tracing-subscriber = { version = "0.3", features = ["env-filter"] }
ureq = "2"
tokio = { version = "1", features = ["rt-multi-thread", "macros", "io-std"] }
tower-lsp = "0.20"
