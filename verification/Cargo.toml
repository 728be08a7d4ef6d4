[package]
name = "rag_rust"
version = "0.1.0"
edition = "2021"
publish = false

[dependencies]
axum = "0.7"
docx-rust = "*"
md-5 = "0.10"
pdf-extract = "*"
reqwest = { version = "0.12", default-features = false, features = ["blocking", "json", "rustls-tls"] }
serde = { version = "1", features = ["derive"] }
serde_json = "1"
thiserror = "1"
tokio = { version = "1", features = ["full"] }
toml = "0.8"
tracing = "0.1"
