[package]
name = "twisty_beziers"
version = "0.1.0"
edition = "2021"
publish = false

[dependencies]
anyhow = "=1.0.104"
gilrs = "=0.11.2"
nalgebra = "=0.33.3"
structopt = "=0.3.26"
