[package]
name = "mcubed_back"
version = "0.1.0"
edition = "2021"
publish = false

[dependencies]
sha1 = "=0.11.0"
sha2 = "=0.11.0"
hex = "=0.4.3"
bytes = "=1.12.1"
ferinth = "=2.13.1"
daedalus = "=0.2.3"
tokio = "=1.53.2"
directories = "=6.0.0"
zip = "=8.6.0"
serde_json = "=1.0.151"
toml = "=1.1.7"
reqwest = "*"
