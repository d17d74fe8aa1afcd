[package]
name = "lenz_core"
version = "0.1.0"
edition = "2021"
publish = false

[dependencies]
serde_json = { version = "1", features = ["preserve_order"] }
mime_guess = "2"
dirs = "*"
rand = "*"
tokio = { version = "1", features = ["rt-multi-thread", "macros"] }
