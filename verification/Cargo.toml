[package]
name = "iot_debugger"
version = "0.1.0"
edition = "2021"
publish = false

[dependencies]
anyhow = "1"
eframe = { version = "0.31", default-features = false, features = ["default_fonts", "glow", "x11"] }
egui = "0.31"
serialport = { version = "4", default-features = false }
tokio = { version = "1", features = ["rt-multi-thread", "time", "net"] }
tokio-modbus = { version = "0.16", default-features = false, features = ["tcp"] }
