[package]
name = "dkk_download"
version = "0.1.0"
edition = "2021"
publish = false

[dependencies]
clap = "*"
pbr = "*"
reqwest = { version = "*", default-features = false, features = ["blocking", "rustls-tls"] }
tee_readwrite = "*"

[dev-dependencies]
json = "*"
