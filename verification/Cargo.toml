[package]
name = "pjp"
version = "0.1.0"
edition = "2021"
publish = false

[dependencies]
md5 = "=0.7.0"
serde_json = "=1.0.151"
serde = { version = "=1.0.229", features = ["derive"] }
directories = "=6.0.0"
log = "=0.4.34"
env_logger = "=0.11.11"
symphonia = "=0.6.1"
symphonia-metadata = "=0.6.1"
reqwest = { version = "=0.13.5", default-features = false, features = ["form", "query"] }
reqwest-eventsource = "=0.6.0"
tokio = { version = "1", features = ["rt-multi-thread", "macros", "time"] }
futures = "=0.3.34"
