[package]
name = "sig_agg"
version = "0.1.0"
edition = "2021"
publish = false

[dependencies]
bincode = "1"
hex = "0.4"
num-bigint = "0.4"
num-traits = "0.2"
p3-field = "0.4"
p3-koala-bear = "0.4"
p3-symmetric = "0.4"
rand = "0.9"
rayon = "1"
serde = { version = "1", features = ["derive"] }
sha2 = "0.10"
