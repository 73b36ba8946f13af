[package]
name = "kiss"
version = "0.1.0"
edition = "2021"
publish = false

[dependencies]
httpdate = "1"
once_cell = "1"
rustc-hash = "2"
tokio = { version = "1", default-features = false, features = ["io-util", "macros", "net", "rt-multi-thread", "signal", "time"] }
