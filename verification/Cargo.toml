[package]
name = "ae_taskmanager"
version = "0.1.0"
edition = "2021"
publish = false

[dependencies]
parking_lot = "0.12"
sysinfo = "0.32"
