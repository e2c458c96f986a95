[package]
name = "byst"
version = "0.1.0"
edition = "2021"
publish = false

[dependencies]
derive_more = { version = "*", features = ["as_ref", "deref", "deref_mut", "from"] }
