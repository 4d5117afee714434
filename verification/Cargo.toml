[package]
name = "orchestration"
version = "0.1.0"
edition = "2021"
publish = false

[dependencies]
cliff = "=0.3.2"
tokio = { version = "1", features = ["full"] }
tsunami = "=0.11.1"
openssh = "=0.8.1"
color-eyre = "=0.6.5"
eyre = "=0.6.14"
tracing = "=0.1.44"
tracing-futures = "=0.2.5"
