[package]
name = "kamino_math"
version = "0.1.0"
edition = "2021"
publish = false

[dependencies]
decimal-wad = "=0.1.9"
num-bigint = "=0.4.8"
num-traits = "=0.2.19"
