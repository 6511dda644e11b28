[package]
name = "squib"
version = "0.1.0"
edition = "2021"
publish = false

[dependencies]
anyhow = "=1.0.104"
applevisor = "*"
bitcode = { version = "=0.6.9", features = ["serde"] }
block2 = "*"
bytes = "=1.12.1"
crc64 = "=2.0.0"
flate2 = "=1.1.10"
libc = "=0.2.191"
mach2 = "*"
parking_lot = "=0.13.0"
semver = { version = "=1.0.28", features = ["serde"] }
serde = { version = "=1.0.229", features = ["derive"] }
serde_json = "=1.0.154"
thiserror = "=2.0.21"
tokio = { version = "=1.54.1", features = ["rt", "rt-multi-thread", "net", "io-util", "sync", "time", "macros", "process"] }
tracing = "=0.1.44"
uuid = { version = "=1.29.0", features = ["v5"] }
zstd = "=0.14.3"
