[package]
name = "mpz"
version = "0.1.0"
edition = "2021"
publish = false

[dependencies]
itybity = "=0.2.1"
rand = "=0.8.8"
serde = { version = "=1.0.229", features = ["derive"] }
futures = "=0.3.34"
pollster = "=0.3.0"
blake3 = { version = "=1.8.7", features = ["pure"] }
rayon = "=1.12.0"
rug = { version = "=1.30.0", default-features = false, features = ["float"] }
thiserror = "=1.0.69"
async-trait = "=0.1.92"
serio = "=0.2.1"
scoped-futures = "=0.1.4"
uid-mux = "=0.2.0"
tokio = { version = "=1.54.1", features = ["sync"] }
pin-project-lite = "=0.2.17"
