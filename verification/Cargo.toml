[package]
name = "todo_app"
version = "0.1.0"
edition = "2021"
publish = false

[dependencies]
uuid = { version = "*", features = ["v7"] }
serde = { version = "*", features = ["derive"] }
tokio = { version = "*", features = ["rt-multi-thread", "macros", "net", "sync", "time"] }
axum = "*"
axum-template = { version = "*", features = ["minijinja"] }
minijinja = { version = "*", features = ["loader"] }
sqlx = { version = "*", features = ["runtime-tokio", "postgres", "uuid"], default-features = false }
tower-http = { version = "*", features = ["fs"] }
