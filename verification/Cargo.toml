[package]
name = "minecraft_launcher_core"
version = "0.1.0"
edition = "2021"
publish = false

[dependencies]
base64 = "0.22"
chrono = "0.4"
derive_builder = "0.20"
futures = "0.3"
hex = "0.4"
libflate = "2"
log = "0.4"
md5 = "*"
os_info = "3"
regex = "1"
reqwest = { version = "0.12", default-features = false, features = ["json", "stream"] }
serde = { version = "1", features = ["derive"] }
serde_json = "1"
sha1 = "0.10"
thiserror = "1"
tokio = { version = "1", features = ["rt-multi-thread", "macros", "fs", "io-util"] }
uuid = { version = "1", features = ["v3"] }
zip = { version = "*", default-features = false, features = ["deflate"] }
