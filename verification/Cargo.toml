[package]
name = "media"
version = "0.1.0"
edition = "2021"
publish = false

[dependencies]
uuid = { version = "1", features = ["v4"] }
chrono = "0.4"
tokio = { version = "1", features = ["macros", "rt"] }
async-nats = "*"
prost = "*"
futures = "0.3"
aws-config = { version = "*", default-features = false }
aws-credential-types = "*"
aws-sdk-s3 = { version = "*", default-features = false }
reqwest = { version = "*", default-features = false, features = ["json"] }
serde = { version = "1", features = ["derive"] }
