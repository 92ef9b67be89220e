[package]
name = "mpquic"
version = "0.1.0"
edition = "2021"
publish = false

[dependencies]
quiche = "*"
ring = "*"
mio = { version = "*", features = ["net", "os-poll"] }
csv = "*"
clap = { version = "*", features = ["derive"] }
env_logger = "*"
log = "*"
serde = { version = "*", features = ["derive"] }
