[package]
name = "actix_app_api"
version = "0.1.0"
edition = "2021"
publish = false

[dependencies]
actix-web = "=4.18.1"
actix-web-opentelemetry = { version = "=0.15.0", features = ["metrics"] }
chrono = { version = "=0.4.45", features = ["serde"] }
clap = { version = "=4.6.7", features = ["derive"] }
const-str = "=0.5.7"
diesel = { version = "=2.1.6", features = ["postgres", "chrono", "r2d2"] }
diesel-async = { version = "=0.4.1", features = ["postgres", "bb8", "async-connection-wrapper"] }
diesel_migrations = "=2.1.0"
dotenvy = "=0.15.7"
eyre = "=0.6.14"
futures = "=0.3.34"
opentelemetry = { version = "=0.20.0", features = ["rt-tokio"] }
opentelemetry-jaeger = { version = "=0.19.0", features = ["rt-tokio"] }
reqwest = { version = "=0.11.27", default-features = false, features = ["json", "rustls-tls"] }
serde = { version = "=1.0.229", features = ["derive"] }
tokio = { version = "=1.54.1", features = ["full"] }
tracing = "=0.1.44"
tracing-actix-web = "=0.7.25"
tracing-appender = "=0.2.5"
tracing-bunyan-formatter = "=0.3.11"
tracing-opentelemetry = "=0.21.0"
tracing-subscriber = { version = "=0.3.23", features = ["env-filter"] }
