[package]
name = "autobricks_worm"
version = "0.1.1"
edition = "2021"
publish = false

[dependencies]
sha2 = "*"
serde = { version = "1", features = ["derive"] }
serde_json = "1"
fs2 = "0.4"
libc = "0.2"
fuser = { version = "0.16", default-features = false }
