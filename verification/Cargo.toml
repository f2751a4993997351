[package]
name = "s3cli"
version = "0.1.0"
edition = "2021"
publish = false

[dependencies]
aws-config = "=0.56.1"
aws-sdk-s3 = "=0.31.2"
clap = "=2.34.0"
pbr = "=1.1.1"
s3-algo = "=0.6.1"
tokio = { version = "=1.53.2", features = ["rt-multi-thread", "macros", "sync"] }
walkdir = "=2.5.0"
