[package]
name = "hsa_rt"
version = "0.1.0"
edition = "2021"
publish = false

[dependencies]
crossbeam = "*"
fs2 = "*"
goblin = "*"
log = "*"
rmp-serde = "*"
seahash = "*"
serde = { version = "*", features = ["derive"] }
tempfile = "*"
