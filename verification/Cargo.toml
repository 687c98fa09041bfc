[package]
name = "mpq_archive"
version = "0.1.0"
edition = "2021"
publish = false

[dependencies]
bzip2 = "=0.6.1"
flate2 = "1"
clap = { version = "=4.6.7", features = ["derive"] }
thiserror = "=1.0.69"
tracing = "=0.1.44"
tracing-subscriber = "=0.3.23"
