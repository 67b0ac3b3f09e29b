[package]
name = "tango"
version = "0.1.0"
edition = "2021"
publish = false

[dependencies]
indexmap = "*"
anyhow = "*"
serde = { version = "*", features = ["derive"] }
serde_json = "*"
rand = "0.8"
rand_pcg = "0.3"
parking_lot = "*"
oneshot = "*"
semver = "*"
unic-langid = "*"
sys-locale = "*"
directories-next = "*"
