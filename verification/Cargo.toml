[package]
name = "mementer"
version = "0.1.0"
edition = "2021"
publish = false

[dependencies]
hdi = "=0.4.6"
hdk = "=0.3.6"
serde = { version = "=1.0.203", features = ["derive"] }
thiserror = "=1.0.69"
