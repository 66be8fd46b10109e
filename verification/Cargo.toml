[package]
name = "swarm_transport"
version = "0.1.0"
edition = "2021"
publish = false

[dependencies]
async-lock = "3"
async-trait = "0.1"
bytes = "1"
event-listener = "5"
futures = "0.3"
tracing = "0.1"
