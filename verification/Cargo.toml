[package]
name = "rushortner"
version = "0.1.0"
edition = "2021"
publish = false

[dependencies]
axum = "*"
dotenv = "*"
serde = { version = "*", features = ["derive"] }
serde_json = "*"
sqlx = { version = "*", default-features = false, features = ["runtime-tokio", "postgres", "macros", "migrate"] }
tokio = { version = "*", features = ["macros", "rt-multi-thread", "net"] }
