[package]
name = "cookiebox"
version = "0.1.0"
edition = "2021"
publish = false

[dependencies]
biscotti = "*"
serde = { version = "1", features = ["derive"] }
serde_json = "1"
anyhow = "1"
thiserror = "1"
actix-web = { version = "4", default-features = false, features = ["macros"] }
actix-utils = "3"
