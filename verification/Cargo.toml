[package]
name = "task_group"
version = "0.1.0"
edition = "2021"
publish = false

[dependencies]
critical-section = "1"
futures-util = "0.3"
