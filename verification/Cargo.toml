[package]
name = "gnss_qc"
version = "0.1.0"
edition = "2021"
publish = false

[dependencies]
rinex = { version = "=0.24.0", features = ["nav"] }
sp3 = "=1.4.1"
maud = "=0.27.0"
genpdf = "=0.2.0"
plotters = { version = "=0.3.7", default-features = false, features = ["bitmap_backend", "line_series", "point_series"] }
image = { version = "=0.25.10", default-features = false, features = ["png", "jpeg"] }
