[package]
name = "qr_payments_back"
version = "0.1.0"
edition = "2021"
publish = false

[dependencies]
rust_decimal = "1"
rand = "0.9"
rand_distr = "0.5"
actix-web = "4"
chrono = "0.4"
error_mapper = "*"
mysql = "*"
serde = { version = "1", features = ["derive"] }
serde_json = "1"
the_logger = "*"
tokio = { version = "1", features = ["full"] }
