[package]
name = "connect4_grader"
version = "0.1.0"
edition = "2021"
publish = false

[dependencies]
async-io = "=2.6.0"
async-process = "=2.5.0"
futures-lite = "=2.6.1"
