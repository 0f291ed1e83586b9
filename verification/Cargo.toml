[package]
name = "plan_optimizer"
version = "0.1.0"
edition = "2021"
publish = false

[dependencies]
sqlite3-parser = "*"
