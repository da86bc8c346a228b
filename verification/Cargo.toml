[package]
name = "linkcheck"
version = "0.1.0"
edition = "2021"
publish = false

[dependencies]
url = "2"
select = "0.6"
reqwest = { version = "0.12", default-features = false, features = ["blocking"] }
threadpool = "1"
clap = { version = "4", features = ["derive"] }
