[package]
name = "microbin"
version = "0.1.0"
edition = "2021"
publish = false

[dependencies]
actix-web = { version = "4", default-features = false, features = ["macros"] }
actix-multipart = "0.7"
bytes = "1"
futures = "0.3"
zip = { version = "2", default-features = false }
