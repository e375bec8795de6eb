[package]
name = "holochain_tracing"
version = "0.1.0"
edition = "2021"
publish = false

[dependencies]
backtrace = "=0.3.76"
chrono = "=0.4.45"
crossbeam-channel = "=0.5.17"
log = "=0.4.34"
opentelemetry = "=0.23.0"
opentelemetry-jaeger = "=0.22.0"
opentelemetry_sdk = "=0.23.0"
proc-macro2 = { version = "=1.0.107", features = ["span-locations"] }
quote = "=1.0.47"
rustracing = "=0.6.0"
rustracing_jaeger = "=0.10.0"
serde = { version = "=1.0.229", features = ["derive"] }
serde_json = "=1.0.154"
syn = { version = "=1.0.109", features = ["full", "fold"] }
tracing = "=0.1.44"
tracing-core = "=0.1.36"
tracing-serde = "=0.2.0"
tracing-subscriber = { version = "=0.3.23", features = ["env-filter", "json", "chrono"] }
