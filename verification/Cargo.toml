[package]
name = "circus_simulation"
version = "0.1.0"
edition = "2021"
publish = false

[dependencies]
rand = { version = "0.8", features = ["small_rng"] }
crossbeam-queue = "0.3"
once_cell = "1"
parking_lot = "0.12"
tracing = "0.1"
async-trait = "0.1"
enum_dispatch = "0.3"
futures = "0.3"
