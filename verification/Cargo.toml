[package]
name = "contribai"
version = "0.1.0"
edition = "2021"
publish = false

[dependencies]
regex = "=1.13.1"
hmac = "=0.12.1"
sha2 = "=0.10.9"
hex = "=0.4.3"
clap = { version = "=4.6.7", features = ["derive"] }
serde = { version = "=1.0.229", features = ["derive"] }
serde_yaml = "=0.9.34"
serde_json = "=1.0.154"
rusqlite = { version = "=0.41.1", features = ["bundled"] }
chrono = "=0.4.45"
dirs = "=7.0.0"
tree-sitter = "=0.27.1"
tree-sitter-python = "=0.25.0"
tree-sitter-javascript = "=0.25.0"
tree-sitter-typescript = "=0.23.2"
tree-sitter-go = "=0.25.0"
tree-sitter-rust = "=0.24.2"
tree-sitter-java = "=0.23.5"
tree-sitter-c = "=0.24.2"
tree-sitter-cpp = "=0.23.4"
tree-sitter-ruby = "=0.23.1"
tree-sitter-php = "=0.25.1"
tree-sitter-c-sharp = "=0.23.5"
tree-sitter-html = "=0.23.2"
tree-sitter-css = "=0.25.0"
anyhow = "1"
axum = "*"
tokio = { version = "1", features = ["full"] }
reqwest = { version = "*", default-features = false, features = ["json", "rustls-tls"] }
dialoguer = "*"
