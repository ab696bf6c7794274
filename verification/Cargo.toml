[package]
name = "myemu"
version = "0.1.0"
edition = "2021"
publish = false

[dependencies]
minifb = "*"
serde = { version = "1", features = ["derive"] }
serde_json = "1"
libc = "0.2"
x11-dl = "2"
