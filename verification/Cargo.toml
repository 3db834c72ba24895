[package]
name = "achitek_ls"
version = "0.2.0"
edition = "2021"
publish = false

[dependencies]
achitekfile = "*"
tree-sitter = "*"
lsp-types = "0.97"
lsp-server = "0.7"
serde_json = "1"
anyhow = "1"
rustc-hash = "2"
lexopt = "*"
