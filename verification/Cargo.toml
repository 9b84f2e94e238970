[package]
name = "formbody"
version = "0.1.0"
edition = "2021"
publish = false

[dependencies]
rotor-http = "=0.6.0"
