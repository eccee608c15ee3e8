[package]
name = "currency_exchange_api"
version = "0.1.0"
edition = "2021"
publish = false

[dependencies]
rand = "=0.9.5"
chrono = { version = "=0.4.45", default-features = false, features = ["std", "clock"] }
bigdecimal = "=0.4.11"
serde = { version = "=1.0.229", features = ["derive"] }
serde_json = "=1.0.154"
anyhow = "=1.0.104"
tokio = { version = "=1.54.1", features = ["rt-multi-thread", "macros", "net", "fs"] }
axum = "=0.8.9"
reqwest = { version = "=0.12.28", default-features = false, features = ["json"] }
sqlx = { version = "=0.8.6", default-features = false, features = ["mysql", "runtime-tokio", "bigdecimal", "chrono"] }
imageproc = { version = "=0.25.1", default-features = false }
image = { version = "=0.25.10", default-features = false, features = ["png"] }
ab_glyph = "=0.2.32"
tracing = "=0.1.44"
tracing-subscriber = "=0.3.23"
dotenvy = "=0.15.7"
envy = "=0.4.2"
utoipa = "=5.5.0"
utoipa-swagger-ui = { version = "9", features = ["axum", "vendored"] }
