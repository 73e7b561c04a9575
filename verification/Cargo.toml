[package]
name = "scip_protobuf"
version = "0.1.0"
edition = "2021"
publish = false

[dependencies]
protobuf = "*"
scip = "*"
clap = { version = "4", features = ["derive"] }
