[package]
name = "pnio"
version = "0.1.0"
edition = "2021"
publish = false

[dependencies]
libc = "0.2"
log = "0.4"
nix = { version = "*", features = ["poll", "time", "sched", "mman", "socket", "net"] }
pcap-file = "*"
thiserror = "*"

[dev-dependencies]
roxmltree = "*"
