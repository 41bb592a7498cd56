[package]
name = "ditchd"
version = "0.1.0"
edition = "2021"
publish = false

[dependencies]
base64 = "0.22"
chrono = "0.4"
libc = "0.2"
portable-pty = "*"
rand_core = { version = "0.6", features = ["getrandom"] }
rusqlite = { version = "*", features = ["bundled"] }
serde = { version = "1", features = ["derive"] }
serde_json = "1"
tungstenite = { version = "*", features = ["rustls-tls-webpki-roots"] }
ureq = { version = "2", features = ["json"] }
url = "2"
uuid = { version = "1", features = ["v4"] }
