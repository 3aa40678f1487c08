[package]
name = "compbot"
version = "0.1.0"
edition = "2021"
publish = false

[dependencies]
hashbrown = "*"
rand = "0.8"
chrono = "0.4"
serenity = "0.12"
sqlx = { version = "0.8", default-features = false, features = ["mysql", "runtime-tokio"] }
sendgrid = "*"
tokio = { version = "1", features = ["rt-multi-thread", "macros", "sync"] }
dotenv = "0.15"
