[package]
name = "trivy_scheduler"
version = "0.1.0"
edition = "2021"
publish = false

[dependencies]
async-trait = "*"
chrono = "*"
clap = "*"
job_scheduler = "*"
shiplift = { version = "*", default-features = false, features = ["chrono", "unix-socket"] }
tokio = { version = "*", features = ["rt-multi-thread"] }
