[package]
name = "iris_agentic_dev_core"
version = "0.1.0"
edition = "2021"
publish = false

[dependencies]
anyhow = "1"
clap = { version = "4", features = ["derive", "env"] }
regex = "1"
reqwest = { version = "0.12", default-features = false, features = ["json"] }
semver = "1"
serde = { version = "1", features = ["derive"] }
serde_json = "1"
tokio = { version = "1", features = ["rt", "macros"] }
toml = "0.8"
tree-sitter = "*"
tree-sitter-objectscript = "*"
tree-sitter-objectscript-routine = "*"
urlencoding = "2"
uuid = { version = "1", features = ["v4"] }
which = "*"
