[package]
name = "zk_age_verification"
version = "0.1.0"
edition = "2021"
publish = false

[dependencies]
ark-bls12-381 = "0.4"
ark-ec = "0.4"
ark-ff = "0.4"
ark-groth16 = "0.4"
ark-relations = "0.4"
ark-serialize = "0.4"
ark-snark = "0.4"
ark-std = "0.4"
ark-test-curves = { version = "0.4", features = ["bls12_381_curve"] }
rand = "0.8"
