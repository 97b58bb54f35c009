[package]
name = "team_dashboard"
version = "0.1.0"
edition = "2021"
publish = false

[dependencies]
num-format = "0.4"
charts-rs = "*"
