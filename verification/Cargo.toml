[package]
name = "beenergy"
version = "0.1.0"
edition = "2021"
publish = false

[dependencies]
soroban-sdk = "22"
stellar-access = "0.4"
stellar-macros = "0.4"
stellar-tokens = "0.4"
