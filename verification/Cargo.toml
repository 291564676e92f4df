[package]
name = "ow2_server_picker"
version = "0.1.0"
edition = "2021"
publish = false

[dependencies]
anyhow = "*"
clap = { version = "*", features = ["derive"] }
ipnetwork = "*"
libc = "*"
mnl = "*"
nftnl = "*"
nix = { version = "*", features = ["mount"] }
thiserror = "*"
tokio = { version = "*", features = ["rt-multi-thread", "macros", "time", "sync"] }
