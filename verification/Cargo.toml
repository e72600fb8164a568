[package]
name = "openhc"
version = "0.1.0"
edition = "2021"
publish = false

[dependencies]
anyhow = "1"
axum = { version = "0.8", features = ["ws"] }
bytes = "1"
dhcproto = "*"
eframe = { version = "0.34", default-features = false, features = ["glow", "default_fonts"] }
futures-util = "0.3"
gpiocdev = "*"
hyper = { version = "1", features = ["client", "http1"] }
hyper-util = { version = "0.1", features = ["tokio", "client", "client-legacy", "http1"] }
if-addrs = "*"
libc = "0.2"
rumqttc = { version = "*", default-features = false, features = ["use-rustls-no-provider"] }
self-replace = "1"
serde = { version = "1", features = ["derive"] }
serde_json = "1"
serialport = { version = "4", default-features = false }
socket2 = { version = "*", features = ["all"] }
tempfile = "3"
tftpd = "*"
tokio = { version = "1", features = ["full"] }
tokio-rustls = { version = "*", default-features = false, features = ["ring", "tls12"] }
tower-http = { version = "*", features = ["compression-gzip"] }
utoipa = "5"
utoipa-axum = "0.2"
zip = { version = "*", default-features = false, features = ["deflate"] }
