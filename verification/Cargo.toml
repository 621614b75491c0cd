[package]
name = "ambient_brightness"
version = "0.1.0"
edition = "2021"
publish = false

[dependencies]
anyhow = "*"
byteorder = "*"
clap = { version = "*", features = ["derive"] }
crossbeam = "*"
ctrlc = "*"
env_logger = "*"
industrial-io = "*"
log = "*"
logind-zbus = "*"
mio = { version = "*", features = ["os-poll", "net"] }
retry = "*"
zbus = "*"
