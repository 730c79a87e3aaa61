[package]
name = "tunnel_sim"
version = "0.1.0"
edition = "2021"
publish = false

[dependencies]
ip_network = "0.4"
ip_network_table = "0.2"
proptest = "1"
proptest-state-machine = "0.3"
bimap = "0.6"
chrono = "0.4"
hex = "0.4"
rand = "0.8"
secrecy = "0.8"
tracing = "0.1"
tracing-subscriber = { version = "0.3", features = ["env-filter"] }

[dev-dependencies]
pretty_assertions = "1"
