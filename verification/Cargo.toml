[package]
name = "pinocchio_escrow"
version = "0.1.0"
edition = "2021"
publish = false

[dependencies]
pinocchio = "0.9.2"
pinocchio-system = "0.3"
pinocchio-token = "0.4"
pinocchio-associated-token-account = "0.2"
