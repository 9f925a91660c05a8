[package]
name = "mzsvg"
version = "0.1.0"
edition = "2021"
publish = false

[dependencies]
clap = { version = "*", features = ["derive"] }
fontdb = "*"
mzdata = { version = "*", default-features = false, features = ["miniz_oxide", "mgf", "mzml"] }
mzpeaks = "*"
resvg = "*"
svg = "*"
svg2pdf = "*"
