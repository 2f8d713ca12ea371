[package]
name = "jotunheim"
version = "0.1.0"
edition = "2021"
publish = false

[dependencies]
anyhow = "1"
async-std = { version = "1", features = ["attributes"] }
async-trait = "0.1"
base64 = "0.13"
bme680 = "0.6"
clap = "2"
dyn-fmt = "*"
embedded-hal = "0.2"
env_logger = "0.9"
envconfig = "0.10"
futures-util = "0.3"
geohash = "0.13"
linux-embedded-hal = "0.3"
log = "0.4"
prometheus = { version = "0.13", default-features = false }
reqwest = { version = "0.11", default-features = false }
rumqttc = { version = "0.10", default-features = false }
rust_gpiozero = "0.2"
serde = { version = "1", features = ["derive"] }
serde_json = "1"
serde_repr = "0.1"
serde_urlencoded = "0.7"
surf = { version = "2", default-features = false, features = ["h1-client-rustls"] }
tide = "0.16"
url = "2"
uuid = { version = "1", features = ["v4"] }
xactor = "0.7"
