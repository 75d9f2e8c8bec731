[package]
name = "nothing_core"
version = "0.1.0"
edition = "2021"
publish = false

[dependencies]
async-trait = "0.1"
bluer = { version = "0.17", features = ["bluetoothd", "rfcomm"] }
directories = "5"
futures = "0.3"
gtk4 = { version = "0.9", features = ["v4_12"] }
ksni = { version = "0.3", features = ["blocking"] }
libadwaita = { version = "0.7", features = ["v1_4"] }
notify-rust = "4"
serde = { version = "1", features = ["derive"] }
serde_json = "1"
tempfile = "3"
tokio = { version = "1", features = ["rt-multi-thread", "macros", "sync", "time", "io-util"] }
tracing = "0.1"
tracing-subscriber = { version = "0.3", features = ["env-filter"] }
uuid = "1"

[dev-dependencies]
