[package]
name = "halo2_poseidon"
version = "0.1.0"
edition = "2021"
publish = false

[dependencies]
pasta_curves = "*"
group = "*"
halo2 = "*"
halo2_proofs = "*"
