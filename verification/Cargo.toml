[package]
name = "codex-rate-proxy"
version = "0.5.0"
edition = "2021"
publish = false

[dependencies]
axum = "0.8"
chacha20poly1305 = "0.10"
futures-util = "0.3"
httpdate = "1"
libc = "0.2"
reqwest = { version = "0.12", default-features = false, features = ["stream"] }
rpassword = "7"
serde = { version = "1", features = ["derive"] }
serde_json = "1"
sha2 = "0.10"
tokio = { version = "1", features = ["macros", "net", "rt-multi-thread", "signal", "sync", "time"] }
