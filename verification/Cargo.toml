[package]
name = "catalog_groups"
version = "0.1.0"
edition = "2021"
publish = false

[dependencies]
axum = "*"
axum-server = "*"
serde = { version = "*", features = ["derive"] }
serde_json = "*"
sqlx = { version = "*", default-features = false, features = ["sqlite", "runtime-tokio"] }
tokio = { version = "*", features = ["macros", "rt-multi-thread"] }
