[package]
name = "toplingdb_plugin"
version = "0.1.0"
edition = "2021"
publish = false

[dependencies]
ctor = "0.2"
inventory = "0.3"
libc = "0.2"
serde_json = "1"
