[package]
name = "kafka_emitter"
version = "0.1.0"
edition = "2021"
publish = false

[dependencies]
uuid = { version = "1", features = ["v4", "serde"] }
rand = "0.9"
bytesize = { version = "*", features = ["serde"] }
tokio = { version = "1", features = ["rt", "rt-multi-thread", "sync", "time"] }
serde = { version = "1", features = ["derive"] }
humantime-serde = "*"
thiserror = "*"
tracing = "*"
tracing-subscriber = "*"
parking_lot = "*"
actix-web = "4"
rdkafka = "*"
utoipa = { version = "5", features = ["uuid"] }
utoipa-actix-web = "*"
utoipa-swagger-ui = { version = "*", features = ["actix-web"] }
jemallocator = "*"
