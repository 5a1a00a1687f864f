[package]
name = "drone_fec"
version = "0.1.0"
edition = "2021"

[dependencies]
streaming-iterator = "0.1"
