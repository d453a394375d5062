[package]
name = "buddy"
version = "0.1.0"
edition = "2021"
publish = false

[dependencies]
arcdps = { version = "=0.11.2", default-features = false }
log = "=0.4.35"
semver = "=1.0.28"
