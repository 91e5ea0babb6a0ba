[package]
name = "technical_commercial_proposal"
version = "0.1.0"
edition = "2021"
publish = false

[dependencies]
uuid = { version = "1", features = ["v4"] }
itertools = "0.12"
ahash = "0.8"
either = "1"
serde = { version = "1", features = ["derive"] }
humantime = "2"
tokio = { version = "1", features = ["rt-multi-thread", "macros", "time"] }
futures = "0.3"
tracing = "0.1"
sqlx = { version = "0.6", default-features = false, features = ["postgres", "runtime-tokio-rustls", "uuid"] }
actix-web = { version = "4", default-features = false, features = ["macros"] }
actix-cors = "0.6"
tracing-actix-web = "0.7"
amqprs = "1"
