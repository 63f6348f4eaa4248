[package]
name = "coolabah"
version = "0.1.0"
edition = "2021"
publish = false

[dependencies]
clap = { version = "*", features = ["derive"] }
futures-lite = "*"
mlua = { version = "*", features = ["lua54", "vendored", "async", "send", "serde"] }
notify = "*"
proc-macro2 = "*"
quote = "*"
rmp-serde = "*"
serde = { version = "*", features = ["derive"] }
serde_json = "*"
syn = { version = "*", features = ["full", "extra-traits"] }
thiserror = "*"
tokio = { version = "*", features = ["rt", "sync", "time", "process", "macros", "io-util"] }
tracing = "*"
tracing-subscriber = { version = "*", features = ["env-filter"] }
