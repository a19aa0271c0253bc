[package]
name = "multistorageclient"
version = "0.1.0"
edition = "2021"
publish = false

[dependencies]
async-trait = "*"
bytes = "*"
chrono = "*"
object_store = { version = "*", features = ["aws", "gcp"] }
pyo3 = "*"
pyo3-async-runtimes = { version = "*", features = ["tokio-runtime"] }
pyo3-bytes = "*"
tempfile = "*"
thiserror = "*"
tokio = { version = "*", features = ["fs", "io-util", "sync", "rt", "rt-multi-thread"] }
