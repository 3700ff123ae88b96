[package]
name = "minirt"
version = "0.1.0"
edition = "2021"
publish = false

[dependencies]
futures = "0.3"
libc = "0.2"
nix = { version = "=0.29.0", features = ["event", "uio"] }
signal-hook = "0.3"
tokio = { version = "1", features = ["rt-multi-thread", "net", "io-util", "time", "macros", "sync"] }
