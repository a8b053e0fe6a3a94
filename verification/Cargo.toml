[package]
name = "meter_proxy"
version = "0.1.1"
edition = "2021"
publish = false

[dependencies]
ansi_term = "0.9"
futures = "0.1"
futures-cpupool = "0.1"
libc = "0.2"
time = "0.1"
tokio-core = "0.1"
