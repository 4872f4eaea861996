[package]
name = "rparif_influxdb"
version = "0.1.0"
edition = "2021"
publish = false

[dependencies]
args = "=2.2.0"
chrono = "=0.4.45"
getopts = "=0.2.24"
json = "=0.12.4"
reqwest = { version = "=0.12.28", default-features = false, features = ["blocking"] }
rparif = "=0.1.1"
titlecase = "=1.1.0"
