[package]
name = "blog_server"
version = "0.1.0"
edition = "2021"
publish = false

[dependencies]
sha3 = "=0.12.0"
hex = "=0.4.3"
jwt-simple = { version = "=0.15.0", default-features = false, features = ["pure-rust"] }
chrono = "=0.4.45"
serde = { version = "=1.0.229", features = ["derive"] }
serde_json = "=1.0.151"
toml = "=1.1.6"
actix-web = { version = "=4.15.0", default-features = false, features = ["macros"] }
