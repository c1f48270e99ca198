[package]
name = "rsipstack"
version = "0.1.0"
edition = "2021"
publish = false

[dependencies]
rsip = "=0.4.0"
rand = "=0.9.5"
tokio = { version = "=1.54.1", features = ["full"] }
tokio-util = "=0.7.20"
tracing = "=0.1.44"
thiserror = "=2.0.21"
async-trait = "=0.1.92"
futures = "=0.3.34"
get_if_addrs = "=0.5.3"
rsip-dns = { version = "=0.1.4", features = ["trust-dns"] }
clap = { version = "=4.6.7", features = ["derive"] }
tracing-subscriber = "=0.3.23"
