[package]
name = "corsairmi_mqtt"
version = "0.1.0"
edition = "2021"
publish = false

[dependencies]
anyhow = "*"
corsairmi = "*"
ctrlc = "*"
hex = "*"
log = "*"
openssl = "*"
serde = { version = "*", features = ["derive"] }
serde_json = "*"
systemd-journal-logger = "*"
