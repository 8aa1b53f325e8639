[package]
name = "bond_audit"
version = "0.1.0"
edition = "2021"
publish = false

[dependencies]
hex = "0.4"
subxt = "0.31"
tokio = { version = "1", features = ["macros", "rt-multi-thread"] }
