[package]
name = "web_crawler"
version = "0.1.0"
edition = "2021"
publish = false

[dependencies]
crossbeam = "*"
dashmap = "*"
thiserror = "*"
