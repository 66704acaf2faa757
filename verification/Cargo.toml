[package]
name = "econ_bot"
version = "0.1.0"
edition = "2021"
publish = false

[dependencies]
titlecase = "2"
num-format = "0.4"
rand = "0.8"
chrono = "0.4"
indoc = "2"
dotenv = "0.15"
sysinfo = "0.29"
tokio = { version = "1", features = ["macros", "rt-multi-thread"] }
poise = "0.5"
sqlx = { version = "0.6", default-features = false, features = ["runtime-tokio-rustls", "postgres", "chrono", "macros"] }
