[package]
name = "opc_desktop"
version = "0.1.0"
edition = "2021"
publish = false

[dependencies]
zune-jpeg = "=0.5.15"
png = "=0.18.1"
serde = { version = "=1.0.229", features = ["derive"] }
serde_json = "=1.0.154"
ureq = "=2.12.1"
mdns-sd = "=0.21.7"
btleplug = "0.11"
tokio = { version = "1", features = ["rt-multi-thread", "time"] }
uuid = "1"
futures = "0.3"
