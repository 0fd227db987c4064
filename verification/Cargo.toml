[package]
name = "shared_service"
version = "0.1.0"
edition = "2021"
publish = false

[dependencies]
scraper = "*"
syntect = { version = "5", default-features = false, features = ["default-fancy"] }
chrono = { version = "0.4", default-features = false, features = ["now", "std"] }
serde = { version = "1", features = ["derive"] }
async-graphql = { version = "7", default-features = false, features = ["chrono"] }
async-graphql-axum = "7"
axum = "*"
tokio = { version = "1", features = ["macros", "rt-multi-thread", "net"] }
tower_governor = "*"
tower-http = { version = "*", features = ["cors"] }
tracing = "0.1"
tracing-subscriber = "0.3"
uuid = { version = "1", features = ["v4"] }
surrealdb = { version = "*", default-features = false, features = ["protocol-ws"] }
