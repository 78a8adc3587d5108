[package]
name = "bumahhfiles"
version = "0.1.0"
edition = "2021"
publish = false

[dependencies]
rand = "=0.10.3"
askama = "=0.14.0"
axum = { version = "=0.8.9", features = ["multipart"] }
dotenvy = "=0.15.7"
lazy_static = "=1.5.1"
serde = { version = "=1.0.229", features = ["derive"] }
thiserror = "=2.0.21"
tokio = { version = "=1.54.1", features = ["full"] }
tower = { version = "=0.5.3", features = ["util"] }
tower-http = { version = "=0.6.11", features = ["trace", "fs"] }
tracing = "=0.1.44"
tracing-subscriber = { version = "=0.3.23", features = ["env-filter"] }
