[package]
name = "surge"
version = "0.1.0"
edition = "2021"
publish = false

[dependencies]
ndarray = "0.15"
num-traits = "0.2"
rand = "0.8"
rand_distr = "0.4"
tch = "*"
tokio = { version = "1", features = ["macros", "rt-multi-thread"] }
tonic = "*"
