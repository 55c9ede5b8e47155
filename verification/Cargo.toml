[package]
name = "nethost_sys"
version = "0.1.0"
edition = "2021"
publish = false

[dependencies]
semver = "1"
zip = { version = "*", default-features = false, features = ["deflate"] }
ureq = "*"
serde = { version = "1", features = ["derive"] }
serde_json = "1"
build-target = "*"
cargo-emit = "*"
coreclr-hosting-shared = "*"
