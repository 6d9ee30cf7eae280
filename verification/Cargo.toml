[package]
name = "query_engine"
version = "0.1.0"
edition = "2021"
publish = false

[dependencies]
crossbeam = "0.8"
dashmap = "6"
fxhash = "0.2"
