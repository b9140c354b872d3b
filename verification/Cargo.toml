[package]
name = "udp_relay"
version = "0.1.0"
edition = "2021"
publish = false

[dependencies]
log = "0.4"
simplelog = "0.12"
tokio = { version = "1", default-features = false, features = ["macros", "net", "rt-multi-thread"] }
