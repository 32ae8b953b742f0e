[package]
name = "rstb"
version = "0.1.0"
edition = "2021"
publish = false

[dependencies]
intmap = "*"
queues = "*"
rand = "*"
junit-report = "*"
