[package]
name = "perf_exporter"
version = "0.1.0"
edition = "2021"
publish = false

[dependencies]
anyhow = "1"
crossbeam-utils = "*"
docopt = "*"
log = "0.4"
prometheus = { version = "*", default-features = false }
stderrlog = "*"
tiny_http = "*"
winapi = { version = "0.3", features = ["pdh", "winerror", "minwindef", "ntdef"] }
