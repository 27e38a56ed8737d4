[package]
name = "imlet"
version = "0.1.0"
edition = "2021"
publish = false

[dependencies]
num-traits = "0.2"
hashbrown = "*"
smallvec = "1"
rayon = "1"
log = "0.4"
env_logger = "*"
serde = { version = "1", features = ["derive"] }
serde_json = "1"
erased-serde = "*"
