[package]
name = "sns-dao"
version = "0.1.0"
edition = "2021"
publish = false

[dependencies]
candid = "=0.9.11"
ic-cdk = "=0.10.2"
ic-cdk-macros = "=0.7.1"
ic-stable-structures = "=0.6.9"
ic_principal = "=0.1.5"
serde = { version = "=1.0.229", features = ["derive"] }
