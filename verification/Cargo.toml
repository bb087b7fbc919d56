[package]
name = "webserver"
version = "0.1.0"
edition = "2021"
publish = false

[dependencies]
brotli = "3"
bytes = "1"
chrono = "0.4"
flate2 = "1"
log = "0.4"
log4rs = "1"
num_cpus = "1"
serde = { version = "1", features = ["derive"] }
serde_derive = "1"
tokio = { version = "1", features = ["rt-multi-thread", "net", "io-util", "io-std", "macros"] }
toml = "0.8"
