[package]
name = "soft_matrix_gpu"
version = "0.1.0"
edition = "2021"
publish = false

[dependencies]
clap = { version = "4", features = ["derive"] }
cudarc = { version = "0.19", features = ["cufft", "nvrtc", "cuda-12090"] }
hound = "3.5"
symphonia = { version = "0.5", features = ["all"] }
