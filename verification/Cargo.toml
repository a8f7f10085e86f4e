[package]
name = "roven"
version = "1.0.0"
edition = "2021"
publish = false

[dependencies]
anyhow = "=1.0.104"
atomic-write-file = "=0.3.1"
clap = { version = "=4.6.7", features = ["derive"] }
crossterm = "=0.29.0"
directories = "=6.0.0"
keyring = { version = "=3.6.3", features = ["apple-native", "windows-native", "linux-native"] }
pulldown-cmark = "=0.13.6"
ratatui = "=0.30.2"
rpassword = "=7.5.4"
serde = { version = "=1.0.229", features = ["derive"] }
serde_json = "=1.0.154"
sha2 = "=0.10.9"
thiserror = "=2.0.21"
tree-sitter = "=0.27.1"
tree-sitter-go = "=0.25.0"
tree-sitter-java = "=0.23.5"
tree-sitter-javascript = "=0.25.0"
tree-sitter-python = "=0.25.0"
tree-sitter-rust = "=0.24.2"
tree-sitter-typescript = "=0.23.2"
unicode-width = "=0.2.3"
ureq = "=3.5.1"
url = "=2.5.8"
uuid = { version = "=1.29.0", features = ["v7"] }
