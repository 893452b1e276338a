[package]
name = "backtesting_suite"
version = "0.1.0"
edition = "2021"
publish = false

[dependencies]
rust_decimal = "=1.43.0"
rust_decimal_macros = "=1.40.0"
rand = "=0.8.8"
serde = { version = "=1.0.229", features = ["derive"] }
thiserror = "=1.0.69"
bitflags = "=2.13.2"
chrono = { version = "=0.4.45", features = ["serde"] }
