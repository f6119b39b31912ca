[package]
name = "series_agg"
version = "0.1.0"
edition = "2021"
publish = false

[dependencies]
actix-web = { version = "=4.15.0", features = ["openssl"] }
actix-cors = "=0.7.2"
actix-files = "=0.7.0"
chrono = "=0.4.45"
openssl = "=0.10.81"
serde = { version = "=1.0.229", features = ["derive"] }
serde_json = "=1.0.151"
tokio = { version = "=1.53.2", features = ["rt-multi-thread", "macros"] }
tokio-postgres = { version = "=0.7.18", features = ["with-chrono-0_4"] }
