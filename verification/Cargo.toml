[package]
name = "bedrock"
version = "0.1.0"
edition = "2021"
publish = false

[dependencies]
anyhow = "=1.0.104"
blake3 = "=1.8.7"
ed25519-dalek = { version = "=2.2.0", features = ["rand_core"] }
rand = "=0.8.8"
sha2 = "=0.10.9"
thiserror = "=1.0.69"
wasmtime = { version = "=36.0.19", default-features = false, features = ["cranelift", "runtime", "std", "threads"] }
