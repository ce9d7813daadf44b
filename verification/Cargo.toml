[package]
name = "zero2prod"
version = "0.1.0"
edition = "2021"
publish = false

[dependencies]
unicode-segmentation = "*"
actix-web = { version = "*", default-features = false }
sqlx = { version = "*", default-features = false, features = ["runtime-tokio", "postgres"] }
tokio = { version = "*", features = ["rt-multi-thread", "macros"] }
config = { version = "*", default-features = false, features = ["toml"] }
serde = { version = "*", features = ["derive"] }
reqwest = { version = "*", default-features = false }
tracing-actix-web = "*"
