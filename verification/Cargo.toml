[package]
name = "mysql_passwordless_proxy"
version = "0.1.0"
edition = "2021"
publish = false

[dependencies]
sha1 = "*"
tokio = { version = "*", features = ["rt-multi-thread", "macros", "net", "io-util"] }
hexdump = "*"
