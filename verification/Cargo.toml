[package]
name = "edge_approximate"
version = "0.1.0"
edition = "2021"
publish = false

[dependencies]
toml = "0.8"
rand = "0.8"
clap = { version = "4", features = ["derive"] }
csv = "1"
kafka = { version = "0.10", default-features = false }
serde = { version = "1", features = ["derive"] }
serde_json = "1"
geohash = "*"
geo = "*"
geo-types = "*"
geojson = "*"
log = "0.4"
env_logger = "*"
whoami = "1"
