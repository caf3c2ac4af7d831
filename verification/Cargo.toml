[package]
name = "comsys"
version = "0.1.0"
edition = "2021"
publish = false

[dependencies]
csv = "1"
chrono = "0.4"
rand = "0.8"
rand_core = { version = "0.6", features = ["getrandom"] }
fastmurmur3 = "0.2"
argon2 = "0.5"
umya-spreadsheet = "1"
serde = { version = "1", features = ["derive"] }
serde_json = "1"
jsonwebtoken = "9"
tokio = { version = "1", features = ["sync", "macros", "rt-multi-thread"] }
