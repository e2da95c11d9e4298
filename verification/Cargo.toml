[package]
name = "code_digest"
version = "0.1.0"
edition = "2021"
publish = false

[dependencies]
clap = { version = "*", features = ["derive"] }
glob = "*"
ignore = "*"
once_cell = "*"
shellexpand = "*"
snmalloc-rs = "*"
thiserror = "*"
tree-sitter = "*"
tree-sitter-go = "*"
tree-sitter-hcl = "*"
tree-sitter-java = "*"
tree-sitter-python = "*"
tree-sitter-rust = "*"
