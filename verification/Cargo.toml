[package]
name = "mnemosyne"
version = "0.1.0"
edition = "2021"
publish = false

[dependencies]
cljrs-reader = "=0.1.252"
serde = { version = "=1.0.229", features = ["derive"] }
serde_json = "=1.0.154"
thiserror = "=2.0.21"
git2 = { version = "=0.21.0", default-features = false }
tantivy = "=0.27.0"
reqwest = { version = "*", default-features = false, features = ["json", "blocking"] }
