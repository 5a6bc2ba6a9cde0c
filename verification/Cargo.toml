[package]
name = "apex-commander"
version = "0.1.0"
edition = "2021"
publish = false

[dependencies]
anyhow = "1"
atspi = "0.28"
chrono = "0.4"
clap = { version = "4", features = ["derive"] }
directories = "6"
futures-lite = "2"
image = { version = "0.25", default-features = false, features = ["png"] }
serde = { version = "1", features = ["derive"] }
serde_json = "1"
thiserror = "2"
tokio = { version = "1", features = ["rt-multi-thread", "macros", "process", "time", "io-util"] }
tracing = "0.1"
tracing-subscriber = { version = "0.3", features = ["env-filter", "fmt"] }
uuid = { version = "1", features = ["v4"] }
zbus = "5"
