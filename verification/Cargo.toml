[package]
name = "bottle"
version = "0.1.0"
edition = "2021"
publish = false

[dependencies]
age = "0.10"
flate2 = "1"
tar = "0.4"
chrono = "0.4"
home = "0.5"
structopt = "0.3"
