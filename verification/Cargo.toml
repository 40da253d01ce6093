[package]
name = "genestore"
version = "0.72.0"
edition = "2021"
publish = false

[dependencies]
arrow = { version = "60", features = ["pyarrow"] }
env_logger = "0.11"
genegraph-storage = "0.72"
numpy = "0.29"
pyo3 = { version = "0.29", features = ["extension-module", "abi3-py310"] }
pyo3-async-runtimes = { version = "0.29", features = ["tokio-runtime"] }
smartcore = "0.6"
sprs = "0.11"
