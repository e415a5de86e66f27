[package]
name = "state_path"
version = "0.1.0"
edition = "2021"
publish = false

[dependencies]
snarkvm-console-network = "=4.11.0"
snarkvm-console-types = "=4.11.0"
snarkvm-console-collections = "=4.11.0"

[dev-dependencies]
rand = "=0.10.3"
