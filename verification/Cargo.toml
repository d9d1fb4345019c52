[package]
name = "magichawk"
version = "0.4.0"
edition = "2021"
publish = false

[dependencies]
ngrammatic = "0.4"
image = { version = "0.24", default-features = false, features = ["jpeg"] }
serde_json = "1"
reqwest = { version = "0.12", default-features = false, features = ["blocking"] }
