[package]
name = "mitmproxy_wireguard"
version = "0.1.0"
edition = "2021"
publish = false

[dependencies]
anyhow = "1"
base64 = "0.13"
boringtun = "0.4"
log = "0.4"
pyo3 = { version = "0.16", features = ["abi3", "abi3-py37", "extension-module", "anyhow"] }
pyo3-asyncio = { version = "0.16", features = ["tokio-runtime"] }
pyo3-log = "0.6"
smoltcp = "0.8"
tokio = { version = "1", features = ["macros", "net", "rt-multi-thread", "sync", "time"] }
