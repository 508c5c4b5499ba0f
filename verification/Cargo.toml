[package]
name = "img_transform"
version = "0.1.0"
edition = "2021"
publish = false

[dependencies]
anyhow = "1"
argh = "0.1"
candle-core = "0.9.2"
candle-datasets = "0.9.2"
candle-nn = "0.9.2"
glam = "=0.25.0"
num-traits = "=0.2.19"
rand = "0.8"
thiserror = "1"
