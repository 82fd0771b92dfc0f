[package]
name = "real_estate_backend"
version = "0.1.0"
edition = "2021"
publish = false

[dependencies]
ic-stable-structures = "*"
ic-cdk = "*"
ic-cdk-macros = "*"
candid = "*"
