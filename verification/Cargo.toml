[package]
name = "batch_system"
version = "0.1.0"
edition = "2021"
publish = false

[dependencies]
aes-gcm = "0.10"
async-trait = "0.1"
blake3 = { version = "1", features = ["pure"] }
bytes = "1"
chacha20 = "0.9"
constant_time_eq = "0.3"
dashmap = "5"
flume = "0.11"
futures = "0.3"
generic-array = "0.14"
hex = "0.4"
hmac = "0.12"
num_cpus = "1"
parking_lot = "0.12"
rand = "0.8"
rand_core = { version = "0.6", features = ["getrandom"] }
rayon = "1"
ring = "0.17"
sha2 = "0.10"
thiserror = "1"
tokio = { version = "1", features = ["full"] }
tracing = "0.1"
