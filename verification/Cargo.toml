[package]
name = "netbox"
version = "0.1.0"
edition = "2021"
publish = false

[dependencies]
anyhow = "1"
clap = { version = "4", features = ["derive"] }
futures = "0.3"
libc = "0.2"
netlink-packet-route = "*"
netlink-sys = { version = "*", features = ["tokio_socket"] }
rtnetlink = "*"
serde = { version = "1", features = ["derive"] }
serde_json = "1"
tokio = { version = "1", features = ["rt", "time", "net", "macros"] }
