[package]
name = "lob_kernel"
version = "0.1.0"
edition = "2021"
publish = false

[dependencies]
bincode = "1"
clap = { version = "4", features = ["derive"] }
crc32fast = "1"
hdrhistogram = { version = "7", default-features = false }
memmap2 = "0.9"
rand = "0.8"
serde = { version = "1", features = ["derive"] }
serde_json = "1"
thiserror = "1"
