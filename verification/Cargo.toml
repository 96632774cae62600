[package]
name = "netlink_bridge"
version = "0.1.0"
edition = "2021"
publish = false

[dependencies]
anyhow = "1"
clap = { version = "3.2", features = ["derive"] }
env_logger = "*"
futures = "0.3"
lazy_static = "1"
log = "0.4"
regex = "1"
rtnetlink = "0.11"
tokio = { version = "1", features = ["full"] }
yang2 = "*"
