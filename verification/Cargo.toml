[package]
name = "carball"
version = "0.1.0"
edition = "2021"
publish = false

[dependencies]
boxcars = "*"
log = "0.4"
simplelog = "*"
structopt = "0.3"
