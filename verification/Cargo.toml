[package]
name = "rpmoci"
version = "0.1.0"
edition = "2021"
publish = false

[dependencies]
anyhow = "1"
flate2 = "1"
glob = "0.3"
log = "0.4"
oci-spec = "0.6"
pyo3 = { version = "0.22", features = ["auto-initialize"] }
serde = { version = "1", features = ["derive"] }
serde_json = "1"
sha2 = "0.10"
tar = "0.4"
tempfile = "3"
url = "2"
walkdir = "2"
