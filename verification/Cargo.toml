[package]
name = "firestore_get"
version = "0.1.0"
edition = "2021"
publish = false

[dependencies]
async-trait = "=0.1.92"
chrono = { version = "=0.4.45", default-features = false, features = ["clock"] }
futures = "=0.3.34"
gcloud-sdk = { version = "=0.33.2", default-features = false, features = ["google-firestore-v1", "tls-webpki-roots"] }
serde = { version = "=1.0.229", features = ["derive"] }
tonic = "=0.14.6"
tracing = "=0.1.44"
