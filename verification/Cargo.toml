[package]
name = "rusty_data_profiler"
version = "0.1.0"
edition = "2021"
publish = false

[dependencies]
ndarray = "*"
ndarray-stats = "*"
noisy_float = "*"
serde = { version = "*", features = ["derive"] }

[dev-dependencies]
rand = "*"
rand_distr = "*"
