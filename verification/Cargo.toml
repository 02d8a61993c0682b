[package]
name = "chat"
version = "0.1.0"
edition = "2021"
publish = false

[dependencies]
anyhow = "1"
bytes = "1"
mio = { version = "*", features = ["net", "os-poll"] }
slab = "0.4"
