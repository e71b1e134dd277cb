[package]
name = "gatekeeper"
version = "0.1.0"
edition = "2021"
publish = false

[dependencies]
regex = "1"
serde = { version = "1", features = ["derive"] }
serde_json = "1"
reqwest = { version = "0.12", default-features = false, features = ["blocking", "rustls-tls"] }
structopt = "0.3"
slog = "2"
slog-async = "2"
slog-bunyan = "2"
failure = "0.1"
itertools = "0.14"
