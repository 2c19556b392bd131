[package]
name = "rusty_thermostat"
version = "0.1.0"
edition = "2021"
publish = false

[dependencies]
bytes = "=1.12.1"
chrono = { version = "=0.4.45", features = ["serde"] }
futures = "=0.3.34"
hmac = "=0.12.1"
jsonwebtoken = "=9.3.1"
libaes = "=0.7.0"
log = "=0.4.34"
rand = "=0.8.8"
reqwest = { version = "=0.11.27", default-features = false }
rocket = { version = "=0.5.2", features = ["json"] }
sea-orm = { version = "=0.12.15", default-features = false, features = ["macros", "with-chrono", "with-uuid"] }
serde = { version = "=1.0.229", features = ["derive"] }
serde_json = "=1.0.154"
sha2 = "=0.10.9"
simplelog = "=0.12.2"
tokio = { version = "=1.54.1", features = ["rt", "macros", "time"] }
tokio-serial = { version = "=5.5.0", default-features = false }
tokio-util = { version = "=0.7.20", features = ["codec"] }
uuid = { version = "=1.29.0", features = ["v4", "serde"] }
