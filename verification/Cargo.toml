[package]
name = "clipboard_sync"
version = "0.1.0"
edition = "2021"
publish = false

[dependencies]
chrono = "0.4"
libc = "0.2"
memfd = "0.6"
xxhash-rust = { version = "0.8", features = ["xxh3"] }
