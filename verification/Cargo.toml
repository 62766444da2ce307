[package]
name = "x11idle"
version = "0.1.0"
edition = "2021"
publish = false

[dependencies]
futures-lite = "2"
libc = "0.2"
serde = { version = "1", features = ["derive"] }
tokio = { version = "1", features = ["rt-multi-thread", "macros", "sync", "signal", "time"] }
toml = "0.8"
x11-dl = "2"
zbus = { version = "5", default-features = false, features = ["tokio"] }
