[package]
name = "lan_pairing"
version = "0.1.0"
edition = "2021"
publish = false

[dependencies]
qrcode = { version = "=0.14.1", default-features = false }
local-ip-address = "=0.6.13"
axum = "=0.7.9"
tokio = { version = "=1.53.2", default-features = false, features = ["rt-multi-thread", "net"] }
tower = { version = "=0.4.13", features = ["util"] }
tower-http = { version = "=0.5.2", default-features = false, features = ["cors", "fs", "set-header"] }
