[package]
name = "pinit_core"
version = "0.1.0"
edition = "2021"
publish = false

[dependencies]
blake3 = "*"
clap = { version = "*", features = ["derive"] }
clap_mangen = "*"
directories = "*"
license = "*"
rust-yaml = "*"
serde = { version = "*", features = ["derive"] }
similar = "*"
toml = "*"
toml_edit = "*"
tracing = "*"
tracing-subscriber = { version = "*", features = ["env-filter"] }
tree-sitter = "*"
tree-sitter-bash = "*"
tree-sitter-css = "*"
tree-sitter-html = "*"
tree-sitter-javascript = "*"
tree-sitter-lua = "*"
tree-sitter-md = "*"
tree-sitter-php = "*"
tree-sitter-python = "*"
tree-sitter-ruby = "*"
tree-sitter-rust = "*"
tree-sitter-typescript = "*"
tree-sitter-zsh = "*"
yaml-rust2 = "*"
