[package]
name = "plugin_sdk"
version = "0.1.0"
edition = "2021"
publish = false

[dependencies]
tokio = { version = "=1.54.1", default-features = false, features = ["sync"] }
dlopen2 = "=0.9.0"

[dev-dependencies]
tokio = { version = "=1.54.1", default-features = false, features = ["sync", "rt-multi-thread"] }
