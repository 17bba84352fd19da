[package]
name = "msgpack_codec"
version = "0.1.0"
edition = "2021"
publish = false

[dependencies]
chrono = "0.4"
serde = "1.0"
serde_bytes = "0.11"
simdutf8 = "0.1"
