[package]
name = "truss"
version = "0.1.0"
edition = "2021"
publish = false

[dependencies]
serde = { version = "1", features = ["derive"] }
serde_json = "1"
thiserror = "2"
tracing = "0.1"
tracing-subscriber = { version = "0.3", features = ["env-filter"] }
libc = "0.2"
mlua = { version = "0.10", features = ["luajit", "vendored", "serialize"] }
smithay = "0.7"
xcursor = "0.3"
wayland-server = "0.31"
