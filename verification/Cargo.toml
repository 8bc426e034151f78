[package]
name = "clap_derive_internals"
version = "0.1.0"
edition = "2021"
publish = false

[dependencies]
syn = "0.11"
quote = "0.3"
error-chain = { version = "0.11", default-features = false }

[dev-dependencies]
clap = { version = "2", default-features = false }
