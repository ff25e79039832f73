[package]
name = "ruburu"
version = "0.1.0"
edition = "2021"
publish = false

[dependencies]
captcha = "=0.0.9"
dotenv = "=0.15.0"
image = "=0.24.9"
maud = { version = "=0.26.0", features = ["rocket"] }
md5 = "=0.7.0"
once_cell = "=1.21.4"
rand = "=0.8.8"
regex = "=1.13.1"
rocket = { version = "=0.5.2", features = ["secrets"] }
sqlx = { version = "=0.6.3", default-features = false, features = ["runtime-tokio-rustls", "postgres", "uuid", "time", "ipnetwork", "migrate"] }
thiserror = "=1.0.69"
tokio = { version = "=1.54.1", features = ["fs", "io-util"] }
uuid = { version = "=1.29.0", features = ["v4"] }
