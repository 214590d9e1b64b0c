[package]
name = "mcsc"
version = "0.1.0"
edition = "2021"
publish = false

[dependencies]
rolling-set = "=0.2.2"
rand = "=0.8.8"
magic-crypt = "=6.0.0"
tokio = { version = "=1.54.1", features = ["full"] }
tokio-stream = { version = "=0.1.19", features = ["fs"] }
toml = "=1.1.8"
serde = { version = "=1.0.229", features = ["derive"] }
color-eyre = "=0.6.5"
lazy-regex = "*"
