[package]
name = "shard_prover"
version = "0.1.0"
edition = "2021"
publish = false

[dependencies]
anyhow = "1"
bincode = "1.3.3"
p3-air = "=0.1.3-succinct"
p3-baby-bear = "=0.1.3-succinct"
p3-blake3 = "=0.1.3-succinct"
p3-challenger = "=0.1.3-succinct"
p3-commit = "=0.1.3-succinct"
p3-dft = "=0.1.3-succinct"
p3-field = "=0.1.3-succinct"
p3-fri = "=0.1.3-succinct"
p3-keccak = "=0.1.3-succinct"
p3-matrix = "=0.1.3-succinct"
p3-merkle-tree = "=0.1.3-succinct"
p3-poseidon2 = "=0.1.3-succinct"
p3-symmetric = "=0.1.3-succinct"
p3-uni-stark = "=0.1.3-succinct"
serde = { version = "1", features = ["derive"] }
size = "0.4"
tempfile = "3"
tracing = "0.1"
web-time = "1"
