[package]
name = "poseidon_circuit"
version = "0.1.0"
edition = "2021"
publish = false

[dependencies]
ark-std = "*"
boojum = "*"
chrono = "*"
serde_json = "*"
