[package]
name = "rustywebserver"
version = "0.1.0"
edition = "2021"
publish = false

[dependencies]
tokio = { version = "=1.53.2", features = ["macros", "rt-multi-thread", "net", "io-util", "process", "time", "sync"] }
