[package]
name = "blocking"
version = "0.1.0"
edition = "2021"

[dependencies]
async-task = "3"
futures = "0.3"
once_cell = "1"
