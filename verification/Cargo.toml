[package]
name = "jddf_fuzz"
version = "0.1.0"
edition = "2021"
publish = false

[dependencies]
rand = "0.8"
chrono = "0.4"
serde_json = "1"
clap = "4"
jddf = "*"
