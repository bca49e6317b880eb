[package]
name = "control_plane"
version = "0.1.0"
edition = "2021"
publish = false

[dependencies]
tokio = { version = "*", features = ["macros", "rt-multi-thread"] }
sqlx = { version = "*", default-features = false, features = ["runtime-tokio", "postgres"] }
bollard = "*"
futures = "*"
