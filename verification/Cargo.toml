[package]
name = "armv6m_sim"
version = "0.1.0"
edition = "2021"
publish = false

[dependencies]
clap = { version = "4", features = ["derive"] }
elfy = "0.2.2"
hex = "0.4.3"
