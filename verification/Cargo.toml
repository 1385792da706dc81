[package]
name = "gcit"
version = "0.1.0"
edition = "2021"
publish = false

[dependencies]
bstr = "1"
chrono = "=0.4.45"
fastrand = "2"
flate2 = "=1.1.10"
futures-util = "0.3"
gix-features = { version = "=0.46.2", features = ["progress"] }
gix-hash = { version = "=0.22.1", features = ["sha1"] }
gix-protocol = { version = "=0.58.0", features = ["blocking-client", "handshake"] }
gix-transport = { version = "=0.55.1", features = ["blocking-client"] }
gix-url = "=0.35.3"
http = "=1.5.0"
octocrab = "0.44"
reqwest = { version = "=0.13.5", default-features = false, features = ["stream"] }
sd-notify = "=0.5.0"
secrecy = "=0.10.3"
serde = { version = "1", features = ["derive"] }
serde_json = "=1.0.154"
thiserror = "2"
tokio = { version = "1", features = ["full", "test-util"] }
tokio-util = "0.7"
tracing = "0.1"
uuid = { version = "=1.29.0", features = ["v4"] }
