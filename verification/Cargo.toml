[package]
name = "qubit"
version = "0.1.0"
edition = "2021"
publish = false

[dependencies]
chrono = "0.4"
termcolor = "1.1"
serde_json = "1"
thiserror = "1"
