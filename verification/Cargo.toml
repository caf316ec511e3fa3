[package]
name = "mcwpack"
version = "0.1.0"
edition = "2021"
publish = false

[dependencies]
anyhow = "1"
clap = { version = "4", features = ["derive"] }
console = "0.15"
edit = "0.1"
env_logger = "0.10"
fastanvil = { version = "*", default-features = false }
fastnbt = "2"
flate2 = "1"
globset = "0.4"
ignore = "0.4"
indicatif = { version = "0.17", features = ["rayon"] }
inquire = "*"
log = "0.4"
path-absolutize = "3"
rayon = "1"
serde = { version = "1", features = ["derive"] }
serde_yaml = "0.9"
zip = { version = "0.6", default-features = false, features = ["deflate"] }
