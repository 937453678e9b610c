[package]
name = "cookie_fetch"
version = "0.1.0"
edition = "2021"
publish = false

[dependencies]
glob = "*"
url = "*"
reqwest = { version = "*", default-features = false, features = ["cookies", "stream"] }
reqwest_cookie_store = "*"
cookie = "*"
deadpool = "*"
async-trait = "*"
futures = "*"
bytes = "*"
serde = { version = "*", features = ["derive"] }
