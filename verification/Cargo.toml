[package]
name = "listsync"
version = "0.1.0"
edition = "2021"
publish = false

[dependencies]
chrono = "0.4"
dynomite = { version = "=0.10.0", default-features = false, features = ["rustls", "uuid", "chrono"] }
log = "0.4"
rusoto_core = { version = "=0.45.0", default-features = false, features = ["rustls"] }
rusoto_dynamodb = { version = "=0.45.0", default-features = false, features = ["rustls"] }
serde = { version = "1", features = ["derive"] }
simple_logger = "*"
tokio = { version = "1", features = ["macros", "rt-multi-thread"] }
tokio-postgres = { version = "0.7", features = ["with-uuid-0_8", "with-chrono-0_4"] }
uuid = { version = "=0.8.2", features = ["v4"] }
