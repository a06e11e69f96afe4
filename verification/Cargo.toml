[package]
name = "cim_keys"
version = "0.1.0"
edition = "2021"
publish = false

[dependencies]
rand = "=0.8.8"
der = { version = "=0.7.10", features = ["zeroize", "alloc"] }
chrono = { version = "=0.4.45", default-features = false, features = ["clock", "std"] }
uuid = { version = "=1.29.0", features = ["v7"] }
