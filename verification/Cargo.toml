[package]
name = "rusty"
version = "0.1.0"
edition = "2021"
publish = false

[dependencies]
argon2 = { version = "0.5", features = ["std"] }
chrono = { version = "0.4", features = ["serde"] }
clap = { version = "4" }
diesel = { version = "2", features = ["chrono", "postgres_backend"] }
diesel-async = { version = "*", features = ["postgres"] }
rocket = { version = "0.5", features = ["json"] }
rocket_db_pools = { version = "*", features = ["diesel_postgres"] }
tokio = { version = "1", features = ["macros", "rt-multi-thread"] }
