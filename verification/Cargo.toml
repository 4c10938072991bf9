[package]
name = "uywi"
version = "0.1.0"
edition = "2021"
publish = false

[dependencies]
arrayvec = "=0.7.8"
array-init = "=2.1.0"
unicode-segmentation = "=1.13.3"
num = "=0.4.3"
thiserror = "=2.0.21"

[dev-dependencies]
rayon = "1"
