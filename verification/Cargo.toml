[package]
name = "libmll"
version = "0.1.0"
edition = "2021"
publish = false

[dependencies]
regex = "=1.13.1"
uuid = { version = "=1.29.0", features = ["v4"] }
rand = "=0.9.5"
chrono = "=0.4.45"
encoding_rs = "=0.8.42"
serde_json = "=1.0.154"
serde = { version = "=1.0.229", features = ["derive"] }
mlua = { version = "=0.10.5", features = ["lua54", "vendored"] }
clap = { version = "=4.6.7", features = ["derive"] }
liquid = "=0.26.11"
liquid-core = "=0.26.11"
kstring = "=2.0.2"
tokio = { version = "=1.54.1", features = ["rt", "rt-multi-thread"] }
sqlx = { version = "=0.8.6", default-features = false, features = ["mysql", "runtime-tokio"] }
