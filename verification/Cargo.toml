[package]
name = "ubass"
version = "0.1.0"
edition = "2021"
publish = false

[dependencies]
aes-gcm-siv = "0.11"
x25519-dalek = "2"
xxhash-rust = { version = "0.8", features = ["xxh3"] }
reed-solomon-simd = "3"
rand = "0.9"
siphasher = "1"
rustc-hash = "2"
tokio = { version = "1", features = ["full"] }
socket2 = { version = "0.6", features = ["all"] }
futures = "0.3"
tracing = "0.1"
tracing-subscriber = "0.3"
clap = { version = "4", features = ["derive"] }
thiserror = "2"
