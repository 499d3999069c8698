[package]
name = "daq_core"
version = "0.1.0"
edition = "2021"
publish = false

[dependencies]
serde_json = "=1.0.154"
egui-snarl = "=0.12.0"
tonic = "=0.14.9"
chrono = "=0.4.45"
uuid = { version = "=1.29.0", features = ["v4"] }
getrandom = "=0.4.3"
find_peaks = "=0.1.5"
which = "=8.0.6"
