[package]
name = "commit_replay"
version = "0.1.0"
edition = "2021"
publish = false

[dependencies]
ratatui = "*"
tree-sitter = "*"
tree-sitter-rust = "*"
streaming-iterator = "*"
