[package]
name = "metalps_lib"
version = "0.1.0"
edition = "2021"
publish = false

[dependencies]
clap = { version = "=4.6.7", features = ["derive", "env"] }
serde = { version = "=1.0.229", features = ["derive"] }
serde_json = "=1.0.154"
toml = "=1.1.8"
thiserror = "=2.0.21"
tokio = { version = "=1.54.1", features = ["full"] }
axum = "=0.8.9"
aide = { version = "=0.15.1", features = ["axum", "axum-json", "scalar"] }
prometheus = "=0.13.4"
tower-http = { version = "=0.7.1", features = ["trace"] }
tokio-listener = { version = "=0.5.2", features = ["axum08"] }
tracing = "=0.1.44"
core-foundation-sys = "=0.8.7"
rust-template-foundation = { version = "=0.145.0", features = ["server", "cli"] }
metal = "=0.33.0"
