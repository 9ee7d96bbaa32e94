[package]
name = "torrent"
version = "0.1.0"
edition = "2021"
publish = false

[dependencies]
byteorder = "1"
rand = "0.8"
sha1 = "0.10"
serde = { version = "1", features = ["derive"] }
serde_derive = "1"
serde_bencode = "0.2"
serde_bytes = "0.11"
async-std = "1"
