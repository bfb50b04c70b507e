[package]
name = "clippi"
version = "0.1.0"
edition = "2021"
publish = false

[dependencies]
url = "=2.5.8"
dirs = "=7.0.0"
uuid = { version = "=1.29.0", features = ["v4"] }
getrandom = "=0.4.3"
serde = { version = "=1.0.229", features = ["derive"] }
serde_json = "=1.0.154"
tokio = { version = "=1.54.1", features = ["full"] }
tokio-tungstenite = "=0.30.0"
futures-util = "=0.3.34"
arboard = { version = "=3.7.0", default-features = false }
local-ip-address = "=0.6.13"
gtk = "=0.18.2"
gdk = "=0.18.2"
gtk-sys = "=0.18.2"
