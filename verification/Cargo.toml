[package]
name = "hazel"
version = "0.1.0"
edition = "2021"
publish = false

[dependencies]
hmac = "0.12"
sha2 = "0.10"
chrono = "0.4"
arrayvec = "0.7"
reed-solomon-simd = "3"
serde = { version = "1", features = ["derive"] }
rmp-serde = "1"
tokio = { version = "1", features = ["net", "io-util", "sync", "rt", "rt-multi-thread", "time", "macros"] }
bytes = "1"
uuid = { version = "1", features = ["v4", "serde"] }
thiserror = "2"
anyhow = "1"
castaway = "0.2"
dashmap = "6"
crossbeam = "0.8"
ringbuf = "0.4"
heapless = "0.8"
atomic_float = "1"
smol = "2"
log = "0.4"
