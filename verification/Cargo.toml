[package]
name = "fast_json_gen"
version = "0.1.0"
edition = "2021"
publish = false

[dependencies]
rand = "0.8"
rand_chacha = "0.3"
dtoa = "1"
actix-web = "4"
tokio = { version = "1", features = ["sync", "rt-multi-thread", "macros"] }
tokio-stream = "0.1"
rayon = "1"
num_cpus = "1"
fake = "2"
crossterm = "0.27"
parking_lot = "0.12"
bytes = "1"

[dev-dependencies]
serde_json = "1"
