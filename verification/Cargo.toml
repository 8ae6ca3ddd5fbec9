[package]
name = "gpu_telemetry"
version = "0.1.0"
edition = "2021"
publish = false

[dependencies]
clap = { version = "4", features = ["derive"] }
crossterm = "*"
ctrlc = "*"
nvml-wrapper = "*"
sysinfo = { version = "*", default-features = false, features = ["system"] }
