[package]
name = "ship_designer"
version = "0.1.0"
edition = "2021"
publish = false

[dependencies]
crossbeam-channel = "=0.5.17"
thiserror = "=1.0.69"
uflow = "=0.7.1"
bevy = { version = "=0.11.3", default-features = false }
bevy_rapier3d = { version = "=0.22.0", default-features = false, features = ["dim3", "headless"] }
