[package]
name = "statsig_forward_proxy"
version = "0.1.0"
edition = "2021"
publish = false

[dependencies]
azure_storage = { version = "=0.14.0", default-features = false }
azure_storage_blobs = { version = "=0.14.0", default-features = false }
base64 = "=0.23.1"
bb8 = "=0.9.1"
brotli = { version = "=9.1.1", features = ["portable-float"] }
chrono = "=0.4.45"
clap = { version = "=4.6.7", features = ["derive"] }
dashmap = "=6.2.1"
dogstatsd = "=0.12.4"
envy = "=0.4.2"
flate2 = "=1.1.10"
libflate = "=2.3.2"
log = "=0.4.35"
lru = "=0.19.0"
moka = { version = "=0.12.16", features = ["sync"] }
opentelemetry = { version = "=0.33.1", features = ["metrics"] }
opentelemetry-otlp = { version = "=0.33.1", default-features = false, features = ["metrics", "http-json", "reqwest-blocking-client"] }
opentelemetry_sdk = { version = "=0.33.1", features = ["metrics"] }
redis = { version = "=1.8.1", features = ["tokio-native-tls-comp"] }
regex = "=1.13.1"
reqwest = { version = "=0.13.5", default-features = false, features = ["form", "json", "native-tls", "query"] }
rocket = { version = "=0.5.2", features = ["json"] }
serde = { version = "=1.0.229", features = ["derive"] }
serde_json = "=1.0.154"
sha2 = "=0.11.1"
statsig = "=1.4.0"
time = "=0.3.55"
tokio = { version = "=1.54.1", features = ["full"] }
uuid = { version = "=1.29.0", features = ["v4"] }

[dev-dependencies]
prost = "=0.14.4"
