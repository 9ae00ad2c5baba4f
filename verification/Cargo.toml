[package]
name = "monitor_control"
version = "0.1.0"
edition = "2021"
publish = false

[dependencies]
anyhow = "1"
ddc-hi = "0.4"
serde = { version = "1", features = ["derive"] }
winapi = { version = "0.3", features = ["lowlevelmonitorconfigurationapi", "physicalmonitorenumerationapi", "minwindef", "windef", "winuser"] }
