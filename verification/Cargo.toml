[package]
name = "criterion_core"
version = "0.1.0"
edition = "2021"
publish = false

[dependencies]
regex = "=1.13.1"
clap = { version = "=2.34.0", default-features = false }
atty = "=0.2.14"
lazy_static = "=1.5.1"
serde = "=1.0.229"
serde_derive = "=1.0.229"
