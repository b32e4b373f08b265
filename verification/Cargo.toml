[package]
name = "ping_tokio"
version = "0.4.0"
edition = "2021"
publish = false

[dependencies]
libc = "0.2"
socket2 = { version = "0.6", features = ["all"] }
tokio = { version = "1", features = ["macros", "net", "rt", "rt-multi-thread", "time"] }
