[package]
name = "image_pager"
version = "0.1.0"
edition = "2021"
publish = false

[dependencies]
url = "2"
anyhow = "1"
dotenv = "0.15"
hyper = { version = "0.14", features = ["full"] }
juniper = "0.15"
juniper_hyper = "0.8"
structopt = "0.3"
tokio = { version = "1", features = ["full"] }
tracing = "0.1"
tracing-subscriber = { version = "0.3", features = ["env-filter"] }
