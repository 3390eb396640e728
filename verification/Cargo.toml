[package]
name = "todolist"
version = "0.1.0"
edition = "2021"
publish = false

[dependencies]
axum = "*"
dotenv = "*"
handlebars = { version = "*", features = ["dir_source"] }
serde = { version = "*", features = ["derive"] }
sqlx = { version = "*", default-features = false, features = ["runtime-tokio", "sqlite"] }
tokio = { version = "*", features = ["rt-multi-thread", "net", "macros"] }
uuid = { version = "*", features = ["v4"] }
