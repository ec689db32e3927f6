[package]
name = "tag_simulator"
version = "0.1.0"
edition = "2021"
publish = false

[dependencies]
rand = "0.7"
dashmap = "3"
itertools = "0.9"
log = "0.4"
env_logger = "0.7"
clap = "2"
iced = { version = "0.1", features = ["canvas"] }
iced_native = "0.2"
iced_wgpu = "0.2"
async-std = { version = "1", features = ["unstable"] }
