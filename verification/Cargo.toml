[package]
name = "hal_orders"
version = "0.1.0"
edition = "2021"
publish = false

[dependencies]
nickel = "=0.11.0"
postgres = "=0.19.14"
time = "=0.1.45"
