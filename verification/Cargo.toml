[package]
name = "serde_yml"
version = "0.1.0"
edition = "2021"
publish = false

[dependencies]
itoa = "=1.0.18"
libyml = "*"
ryu = "=1.0.23"
serde = "=1.0.229"
