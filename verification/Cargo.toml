[package]
name = "mshwisper"
version = "0.1.0"
edition = "2021"
publish = false

[dependencies]
aes-gcm = "0.9"
sha2 = "0.9"
x25519-dalek = "1.2"
rand_core = { version = "0.5", features = ["getrandom"] }
uuid = { version = "1", features = ["v4"] }
chrono = "0.4"
serde = { version = "1", features = ["derive"] }
serde_json = "1"
tokio = { version = "1", features = ["full"] }
crossterm = "0.27"
ratatui = "0.26"
anyhow = "1"
