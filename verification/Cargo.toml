[package]
name = "veriphoto"
version = "0.1.0"
edition = "2021"
publish = false

[dependencies]
rand = "=0.8.8"
smartcore = "=0.4.10"
image = "=0.24.9"
png = "=0.17.16"
anyhow = "=1.0.104"
