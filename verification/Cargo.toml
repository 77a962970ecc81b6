[package]
name = "vitalis"
version = "0.1.0"
edition = "2021"
publish = false

[dependencies]
hex = "=0.4.3"
rand = "=0.8.8"
ring = "=0.17.14"
postcard = { version = "=1.1.3", features = ["use-std"] }
reed-solomon-erasure = "=6.0.0"
serde = { version = "=1.0.229", features = ["derive"] }
serde_json = "=1.0.154"
redb = "=2.6.4"
clap = { version = "=4.6.7", features = ["derive"] }
toml = "=0.8.23"
tracing = "=0.1.44"
tracing-subscriber = { version = "=0.3.23", features = ["env-filter", "json"] }
libc = "=0.2.191"
