[package]
name = "sparrow"
version = "0.1.0"
edition = "2021"
publish = false

[dependencies]
anyhow = "=1.0.104"
askama = "=0.12.1"
axum = "=0.7.9"
clap = { version = "=4.6.7", features = ["derive"] }
cpal = "=0.15.3"
fourier = "=0.1.0"
http = "=1.5.0"
num-complex = "0.2"
palette = "=0.7.7"
ringbuf = "=0.4.8"
serde = { version = "=1.0.229", features = ["derive"] }
slog = "=2.8.2"
slog-async = "=2.8.0"
slog-scope = "=4.4.1"
slog-term = "=2.9.2"
tokio = { version = "=1.54.1", features = ["full"] }
tokio-serial = { version = "=5.5.0", default-features = false }
