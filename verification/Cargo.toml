[package]
name = "privileged_ipc"
version = "0.1.0"
edition = "2021"
publish = false

[dependencies]
uuid = { version = "=1.27.0", features = ["v4"] }
nix = { version = "=0.29.0", features = ["process", "socket", "fs", "user"] }
command-fds = "=0.3.3"
serde = "=1.0.229"
serde_derive = "=1.0.229"
serde_json = "=1.0.151"
clap = "=4.6.7"

[dev-dependencies]
socket2 = "0.5"
