[package]
name = "battleships"
version = "0.1.0"
edition = "2021"
publish = false

[dependencies]
ark-bls12-381 = "0.4"
ark-crypto-primitives = { version = "0.4", features = ["crh", "r1cs"] }
ark-ec = "0.4"
ark-ff = "0.4"
ark-groth16 = "0.4"
ark-r1cs-std = "0.4"
ark-relations = "0.4"
ark-serialize = "0.4"
ark-snark = "0.4"
ark-std = "0.4"
async-channel = "*"
async-std = "1"
clap = { version = "4", features = ["derive"] }
futures = "0.3"
rustyline-async = "*"
serde = { version = "1", features = ["derive"] }
serde_json = "1"

[dev-dependencies]
sha2 = "0.10"
