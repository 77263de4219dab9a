[package]
name = "sherlock"
version = "0.1.0"
edition = "2021"
publish = false

[dependencies]
regex = "=1.13.1"
serde = { version = "=1.0.229", features = ["derive"] }
serde_json = "=1.0.154"
simd-json = "=0.19.0"
toml = "=1.1.8"
xdg = "=3.0.0"
libc = "=0.2.191"
levenshtein = "=1.0.5"
meval = "=0.2.0"
chrono = "=0.4.45"
bincode = { version = "2", features = ["serde"] }
