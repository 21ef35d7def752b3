[package]
name = "tree_sitter_struct"
version = "0.1.0"
edition = "2021"
publish = false

[dependencies]
heck = "=0.5.0"
indexmap = { version = "=2.14.2", features = ["serde"] }
proc-macro2 = "=1.0.107"
quote = "=1.0.47"
serde = { version = "=1.0.229", features = ["derive"] }
serde_json = "=1.0.154"
thiserror = "=2.0.21"
