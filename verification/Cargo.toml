[package]
name = "udp_tunnel_mux"
version = "0.1.0"
edition = "2021"
publish = false

[dependencies]
anyhow = "*"
bytes = "*"
clap = { version = "*", features = ["derive"] }
futures = "*"
quinn = "*"
rcgen = "*"
tokio = { version = "*", features = ["net", "rt-multi-thread", "macros", "time"] }
