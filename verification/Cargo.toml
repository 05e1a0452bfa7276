[package]
name = "arwen_elrond_ipc"
version = "0.1.0"
edition = "2021"
publish = false

[dependencies]
interactive_process = "*"
itertools = "*"
serde = { version = "*", features = ["derive"] }
serde_json = "*"
