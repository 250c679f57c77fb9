[package]
name = "holo"
version = "0.1.0"
edition = "2021"
publish = false

[dependencies]
capctl = "*"
futures = "*"
ipnetwork = "*"
itertools = "*"
libc = "0.2"
netlink-packet-core = "*"
netlink-packet-route = "*"
regex = "1"
rtnetlink = "*"
tokio = { version = "1", features = ["sync", "rt", "macros"] }
tracing = "0.1"
