[package]
name = "gdq_schedule"
version = "0.1.0"
edition = "2021"
publish = false

[dependencies]
chrono = "0.4"
visdom = "*"
ureq = "2"
csv = "1"
serde = { version = "1", features = ["derive"] }
serde_derive = "1"
crossbeam-channel = "0.5"
