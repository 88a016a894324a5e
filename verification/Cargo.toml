[package]
name = "tasklist"
version = "0.1.0"
edition = "2021"
publish = false

[dependencies]
actix-web = { version = "*", features = ["secure-cookies"] }
actix-session = { version = "*", features = ["cookie-session"] }
actix-cors = "*"
serde = { version = "*", features = ["derive"] }
