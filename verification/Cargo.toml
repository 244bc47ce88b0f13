[package]
name = "category_api"
version = "0.1.0"
edition = "2021"
publish = false

[dependencies]
actix-cors = "*"
actix-multipart = "*"
actix-rt = "*"
actix-web = { version = "*", default-features = false, features = ["macros"] }
async-std = "*"
chrono = { version = "*", default-features = false, features = ["clock"] }
futures = "*"
mongodb = "*"
serde = { version = "*", features = ["derive"] }
