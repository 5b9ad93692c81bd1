[package]
name = "message_io"
version = "0.1.0"
edition = "2021"
publish = false

[dependencies]
url = "*"
mio = { version = "*", features = ["net", "os-poll"] }
tungstenite = "*"
