[package]
name = "fastly_inspect"
version = "0.1.2"
edition = "2021"
publish = false

[dependencies]
chrono = "0.4"
rand = "0.8"
serde = { version = "1", features = ["derive"] }
serde_json = "1"
futures = "0.3"
surf = { version = "2", default-features = false, features = ["h1-client-rustls"] }
ttfb = "*"
fastly = "*"
rust-embed = "*"
