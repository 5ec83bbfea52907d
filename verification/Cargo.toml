[package]
name = "oidc_core"
version = "0.1.0"
edition = "2021"
publish = false

[dependencies]
sha2 = "=0.10.9"
hmac = "=0.12.1"
rand = "=0.9.5"
ulid = { version = "=1.2.1", features = ["uuid"] }
chrono = "=0.4.45"
uuid = "=1.29.0"
anyhow = "=1.0.104"
async-trait = "=0.1.92"
futures = "=0.3.34"
tokio = { version = "=1.54.1", features = ["rt-multi-thread", "macros", "time"] }
tracing = "=0.1.44"
warp = "=0.3.7"
hyper = { version = "=0.14.32", features = ["client", "http1", "tcp"] }
sqlx = { version = "=0.8.6", default-features = false, features = ["postgres", "runtime-tokio", "uuid", "chrono", "json"] }
sea-query = "=0.32.7"
sea-query-binder = { version = "=0.7.0", features = ["sqlx-postgres", "with-uuid", "with-chrono"] }
opentelemetry = "=0.33.1"
opentelemetry_sdk = { version = "=0.33.1", features = ["rt-tokio"] }
opentelemetry-otlp = { version = "=0.33.1", default-features = false, features = ["grpc-tonic", "trace", "metrics"] }
opentelemetry-semantic-conventions = "=0.33.1"
serde = { version = "=1.0.229", features = ["derive"] }
serde_json = "=1.0.154"
