[package]
name = "macrdp"
version = "0.1.0"
edition = "2021"
publish = false

[dependencies]
anyhow = "=1.0.104"
async-trait = "=0.1.92"
bytes = "=1.12.1"
ironrdp-acceptor = "=0.8.0"
ironrdp-ainput = "=0.5.0"
ironrdp-async = "=0.8.0"
ironrdp-cliprdr = "=0.5.0"
ironrdp-core = "=0.1.5"
ironrdp-displaycontrol = "=0.5.0"
ironrdp-dvc = "=0.5.0"
ironrdp-error = "=0.1.3"
ironrdp-pdu = "=0.7.0"
ironrdp-rdpsnd = "=0.7.0"
ironrdp-svc = "=0.6.0"
ironrdp-tokio = { version = "=0.8.0", features = ["reqwest"] }
tokio = { version = "=1.54.1", features = ["rt", "net", "sync", "io-util", "macros", "time"] }
tokio-rustls = "=0.26.6"
tracing = "=0.1.44"
