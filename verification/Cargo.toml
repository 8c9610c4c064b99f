[package]
name = "eg"
version = "0.1.0"
edition = "2021"
publish = false

[dependencies]
regex = "=1.13.1"
semver = "=1.0.28"
flate2 = "=1.1.10"
tar = "=0.4.46"
base64 = "=0.22.1"
home = "=0.5.12"
cargo_metadata = "=0.23.1"
crates_io_api = "=0.12.0"
reqwest = "=0.12.28"
octocrab = "=0.44.1"
tokio = { version = "=1.54.1", features = ["rt", "macros"] }
thiserror = "=2.0.21"
