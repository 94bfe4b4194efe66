[package]
name = "lending_pool"
version = "0.4.0"
edition = "2021"
publish = false

[dependencies]
soroban-sdk = "22"
