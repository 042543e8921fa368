[package]
name = "rnr"
version = "0.1.0"
edition = "2021"
publish = false

[dependencies]
bytemuck = "=1.25.2"
clap = { version = "=4.6.7", features = ["derive"] }
glam = "=0.33.12"
nalgebra = "=0.35.0"
rapier3d = "=0.36.1"
thiserror = "=2.0.21"
tokio = { version = "=1.54.1", features = ["macros", "rt-multi-thread", "time"] }
