[package]
name = "talpid-ipc"
version = "0.1.0"
edition = "2021"
publish = false

[dependencies]
futures = "0.3"
nix = { version = "*", features = ["fs"] }
tokio = { version = "1", features = ["io-util", "net", "rt", "time"] }
windows-sys = { version = "*", features = ["Win32_Foundation"] }
