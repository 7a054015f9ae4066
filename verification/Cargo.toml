[package]
name = "ibx"
version = "0.1.0"
edition = "2021"
publish = false

[dependencies]
base64 = "0.22"
core_affinity = "0.8"
crossbeam-channel = "0.5"
env_logger = "0.11"
flate2 = "1"
log = "0.4"
native-tls = "0.2"
num-bigint = "0.4"
pyo3 = { version = "0.23", features = ["abi3-py38", "extension-module"] }
sha1 = "0.10"
