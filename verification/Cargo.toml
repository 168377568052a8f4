[package]
name = "health_routing"
version = "0.1.0"
edition = "2021"
publish = false

[dependencies]
async-trait = "0.1.92"
chrono = "0.4.45"
nv-redfish = "0.22.0"
