[package]
name = "region_scan"
version = "0.1.0"
edition = "2021"
publish = false

[dependencies]
anvil-region = "*"
named-binary-tag = "*"
crossbeam = "*"
crossbeam-channel = "*"
clap = "*"
protobuf = "*"
