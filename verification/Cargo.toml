[package]
name = "ogn_aprs_parser"
version = "0.1.0"
edition = "2021"
publish = false

[dependencies]
chrono = "=0.4.45"
thiserror = "=2.0.21"
pyo3 = { version = "=0.30.1", features = ["chrono"] }

[dev-dependencies]
nom = "8"
