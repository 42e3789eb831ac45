[package]
name = "cauchy"
version = "0.1.0"
edition = "2021"
publish = false

[dependencies]
anyhow = "1"
itertools = "*"
libloading = "0.8"
plotters = { version = "0.3", default-features = false, features = ["svg_backend", "bitmap_backend", "bitmap_encoder", "line_series"] }
serde = { version = "1", features = ["derive"] }
toml = "0.8"
