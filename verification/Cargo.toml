[package]
name = "ember-term"
version = "0.1.0"
edition = "2021"
publish = false

[dependencies]
libc = "0.2"
log = "0.4"
muda = "*"
serde = { version = "1", features = ["derive"] }
serde_json = "1"
toml = "*"
winit = "0.30"
