[package]
name = "ssm_helper"
version = "0.1.0"
edition = "2021"
publish = false

[dependencies]
rusoto_core = { version = "=0.42.0", default-features = false, features = ["rustls"] }
rusoto_ssm = { version = "=0.42.0", default-features = false, features = ["rustls"] }
structopt = "0.3"
serde = "1"
serde_derive = "1"
serde_json = "1"
