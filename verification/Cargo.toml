[package]
name = "popcorn"
version = "0.1.0"
edition = "2021"
publish = false

[dependencies]
uuid = { version = "=1.27.0", features = ["v4"] }
spin = "=0.9.9"
crossbeam = "=0.8.5"
futures = "=0.1.31"
futures-cpupool = "=0.1.8"
blas-sys = { version = "=0.6.9", default-features = false }
