[package]
name = "h5o3"
version = "0.1.0"
edition = "2021"
publish = false

[dependencies]
anyhow = "*"
clap = { version = "*", features = ["derive"] }
hdf5 = "*"
medians = "*"
ndarray = "*"
num = "*"
thiserror = "*"
