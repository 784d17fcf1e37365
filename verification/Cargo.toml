[package]
name = "btdmm_comm"
version = "0.1.0"
edition = "2021"
publish = false

[dependencies]
async-recursion = "1"
async-std = "1"
btleplug = "0.11"
futures = "0.3"
thiserror = "1"
tokio = { version = "1", features = ["macros", "rt-multi-thread"] }
uuid = "1"
