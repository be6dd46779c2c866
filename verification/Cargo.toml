[package]
name = "wmt"
version = "0.1.0"
edition = "2021"
publish = false

[dependencies]
anyhow = "1"
cargo_toml = "0.15"
chrono = "0.4"
clap = { version = "=3.2.25", features = ["derive"] }
comfy-table = "5"
crates_io_api = "0.8"
octocrab = "=0.41.2"
reqwest = { version = "0.11", default-features = false, features = ["blocking", "json", "rustls-tls"] }
select = "0.6"
serde = { version = "1", features = ["derive"] }
serde_json = "1"
tokio = { version = "1", features = ["macros", "rt"] }
tracing = "0.1"
tracing-subscriber = "0.3"
