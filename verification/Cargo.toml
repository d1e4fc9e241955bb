[package]
name = "xspeed"
version = "0.1.0"
edition = "2021"
publish = false

[dependencies]
clap = "2"
crossbeam-deque = "0.8"
num_cpus = "1"
pretty_toa = "1"
rand = "0.8"
slog = "2"
slog-async = "2"
slog-term = "2"
xgboost = "0.1"
