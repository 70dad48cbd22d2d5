[package]
name = "wallet_ledger"
version = "0.1.0"
edition = "2021"
publish = false

[dependencies]
rust_decimal = "=1.43.0"
time = { version = "=0.3.55", features = ["formatting", "parsing", "macros", "serde"] }
serde = { version = "=1.0.229", features = ["derive"] }
serde_json = "=1.0.154"
actix-web = { version = "=4.18.1", default-features = false, features = ["macros"] }
actix-rt = "=2.15.0"
chrono = "=0.4.45"
tracing = "=0.1.44"
sqlx = { version = "=0.8.6", default-features = false, features = ["postgres", "runtime-tokio", "rust_decimal", "time", "macros"] }

[dev-dependencies]
regex = "=1.13.1"
