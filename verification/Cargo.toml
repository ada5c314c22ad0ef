[package]
name = "gnuv2_demangle"
version = "0.2.0"
edition = "2021"
publish = false

[dependencies]
argp = "*"
