[package]
name = "gitcredit"
version = "0.1.0"
edition = "2021"
publish = false

[dependencies]
sha2 = "0.10"
serde = { version = "1", features = ["derive"] }
toml = "0.8"
directories = "5"
thiserror = "1"
reqwest = { version = "0.12", default-features = false, features = ["blocking", "rustls-tls"] }
