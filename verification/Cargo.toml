[package]
name = "ogito"
version = "0.1.0"
edition = "2021"
publish = false

[dependencies]
clap = "*"
comfy-table = "*"
console = "*"
dialoguer = "*"
dirs = "*"
flate2 = "*"
fs_extra = "*"
indicatif = "*"
mime_guess = "*"
reqwest = { version = "*", default-features = false, features = ["blocking", "rustls-tls"] }
serde_json = "*"
tar = "*"
