[package]
name = "catcolab"
version = "0.1.0"
edition = "2021"
publish = false

[dependencies]
axum = { version = "*", default-features = false, features = ["json"] }
dotenvy = "*"
firebase-auth = { version = "*", default-features = false }
http = "*"
hyper = { version = "*", default-features = false }
num-traits = "*"
reqwest = { version = "*", default-features = false, features = ["json"] }
serde = { version = "*", features = ["derive"] }
serde_json = "*"
sqlx = { version = "*", default-features = false, features = ["postgres", "runtime-tokio", "uuid", "derive"] }
ts-rs = "*"
uuid = { version = "*", features = ["serde"] }
