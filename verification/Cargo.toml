[package]
name = "yalt"
version = "0.1.0"
edition = "2021"
publish = false

[dependencies]
rand = "*"
rusqlite = { version = "*", features = ["bundled"] }
structopt = "*"
tokio = { version = "*", features = ["full"] }

[dev-dependencies]
tempfile = "*"
