[package]
name = "mosaic"
version = "0.1.0"
edition = "2021"
publish = false

[dependencies]
bincode = "=1.3.3"
directories-next = "=2.0.0"
ipmpsc = "=0.5.1"
serde = { version = "=1.0.229", features = ["derive"] }
serde_json = "=1.0.154"
structopt = "=0.3.26"
termion = { version = "=4.0.6", features = ["serde"] }
wasmer = "=2.3.0"
wasmer-wasi = "=2.3.0"
