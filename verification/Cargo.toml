[package]
name = "noirlings"
version = "0.1.0"
edition = "2021"
publish = false

[dependencies]
regex = "=1.13.1"
serde = { version = "=1.0.229", features = ["derive"] }
toml = "=0.5.11"
anyhow = "=1.0.104"
argh = "=0.1.19"
console = "=0.15.11"
indicatif = "=0.17.11"
notify = "=4.0.18"
