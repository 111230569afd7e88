[package]
name = "thermo_fem"
version = "0.1.0"
edition = "2021"
publish = false

[dependencies]
anyhow = "=1.0.104"
apdl-parser = "=0.1.0"
chrono = "=0.4.45"
clap = { version = "=4.6.7", features = ["derive"] }
colorgrad = "=0.9.0"
nalgebra = "=0.35.0"
plotly = { version = "=0.14.1", features = ["kaleido"] }
russell_lab = "=5.0.0"
russell_sparse = "=5.1.0"
tracing = "=0.1.44"
tracing-subscriber = "=0.3.23"
