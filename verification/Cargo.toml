[package]
name = "opentelemetry_c_sdk"
version = "0.1.0"
edition = "2021"
publish = false

[dependencies]
opentelemetry = { version = "=0.32.0", features = ["experimental_metrics_bound_instruments"] }
opentelemetry_sdk = { version = "=0.32.1", features = ["logs", "metrics", "trace", "testing", "spec_unstable_metrics_views", "experimental_metrics_custom_reader", "experimental_metrics_bound_instruments"] }
opentelemetry-otlp = { version = "=0.32.0", default-features = false, features = ["http-proto", "reqwest-blocking-client", "grpc-tonic", "trace", "metrics", "logs"] }
tonic = { version = "=0.14.9", default-features = false }
tokio = { version = "=1.54.1", features = ["rt", "rt-multi-thread", "time"] }
futures-executor = "=0.3.34"
