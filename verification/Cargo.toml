[package]
name = "crabler"
version = "0.1.0"
edition = "2021"
publish = false

[dependencies]
crabquery = "*"
async-std = "1"
async-trait = "0.1"
surf = "2"
