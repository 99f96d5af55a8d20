[package]
name = "sudachi-swift"
version = "0.1.0"
edition = "2021"
publish = false

[dependencies]
thiserror = "2"
uniffi = "0.29"
