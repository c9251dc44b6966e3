[package]
name = "ironbar"
version = "0.13.0"
edition = "2021"
publish = false

[dependencies]
tokio = { version = "1", features = ["io-util", "macros", "net", "rt", "rt-multi-thread", "sync", "time"] }
serde = { version = "1", features = ["derive"] }
serde_json = "1"
clap = { version = "4", features = ["derive"] }
color-eyre = "0.6"
tracing = "0.1"
ctrlc = "3"
dirs = "5"
universal-config = "0.4"
smithay-client-toolkit = { version = "0.17", default-features = false }
libpulse-binding = "2"
glib = "0.17"
gtk4 = "0.6"
