[package]
name = "ipa_server"
version = "0.1.0"
edition = "2021"
publish = false

[dependencies]
aws-config = "=1.13.0"
aws-sdk-polly = "=1.125.0"
env_logger = "=0.11.11"
log = "=0.4.34"
rand = "=0.9.5"
rocket = { version = "=0.5.2", features = ["json"] }
rocket-governor = { version = "=0.2.0-rc.4", features = ["limit_info"] }
