[package]
name = "tf2_demo_insights"
version = "0.1.0"
edition = "2021"
publish = false

[dependencies]
tf-demo-parser = "=0.6.4"
clap = { version = "=4.6.7", features = ["derive"] }
