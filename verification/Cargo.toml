[package]
name = "ntlmclient"
version = "0.1.0"
edition = "2021"
publish = false

[dependencies]
base64 = "0.22"
chrono = "0.4"
cipher = "0.4"
des = "0.8"
digest = "0.10"
hmac = "0.12"
local-encoding = "0.2"
md4 = "0.10"
md-5 = "0.10"
rand = "0.8"
reqwest = { version = "0.12", default-features = false, features = ["cookies"] }
rpassword = "7"
serde = { version = "1", features = ["derive"] }
tokio = { version = "1", features = ["rt", "macros"] }
toml = "0.8"
