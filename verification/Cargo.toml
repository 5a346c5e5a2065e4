[package]
name = "bspwm_ipc"
version = "0.1.0"
edition = "2021"
publish = false

[dependencies]
serde_json = "*"
