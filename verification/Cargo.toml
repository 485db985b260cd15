[package]
name = "routee_compass"
version = "0.1.0"
edition = "2021"
publish = false

[dependencies]
serde_json = "=1.0.151"
ndarray = "=0.17.2"
ort = "=2.0.0-rc.13"
