[package]
name = "habitui"
version = "0.1.0"
edition = "2021"
publish = false

[dependencies]
serde = { version = "*", features = ["derive"] }
serde_json = "*"
clap = { version = "*", features = ["derive"] }
tokio = { version = "*", features = ["rt-multi-thread", "macros"] }
reqwest = { version = "*", default-features = false, features = ["json", "rustls-tls"] }
sqlx = { version = "*", default-features = false, features = ["postgres", "runtime-tokio"] }
dotenv = "*"
inquire = "*"
