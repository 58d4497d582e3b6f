[package]
name = "verifiable_intelligence"
version = "0.1.0"
edition = "2021"
publish = false

[dependencies]
base64 = "0.22"
clap = { version = "4", features = ["derive"] }
crc = "3"
ctrlc = "3"
reqwest = { version = "0.12", default-features = false, features = ["blocking", "rustls-tls"] }
ruzstd = "*"
serde = { version = "1", features = ["derive"] }
serde_json = "1"
sha2 = "0.10"
tracing = "0.1"
tracing-subscriber = { version = "0.3", features = ["json", "env-filter"] }
ulid = "1"
wasm-bindgen = "0.2"
