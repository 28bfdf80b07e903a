[package]
name = "swym"
version = "0.1.0"
edition = "2021"
publish = false

[dependencies]
crossbeam-utils = "*"
fxhash = "*"
lazy_static = "*"
lock_api = "*"
parking_lot = "*"
parking_lot_core = "*"
