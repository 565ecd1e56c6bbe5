[package]
name = "libvirtmanager"
version = "0.1.0"
edition = "2021"
publish = false

[dependencies]
log = "0.4"
env_logger = "0.11"
tempfile = "3"
tokio = { version = "1", features = ["fs", "rt", "rt-multi-thread", "macros"] }
