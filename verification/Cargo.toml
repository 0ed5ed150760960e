[package]
name = "picture_quiz"
version = "0.1.0"
edition = "2021"
publish = false

[dependencies]
colored = "=2.2.0"
rand = "=0.8.8"
rocket = { version = "=0.5.2", features = ["json"] }
rocket_db_pools = { version = "=0.2.0", features = ["sqlx_sqlite"] }
rocket_session = "0.4"
sqlx = { version = "=0.7.4", features = ["macros", "migrate", "runtime-tokio", "sqlite"] }
