[package]
name = "visualizers"
version = "0.1.0"
edition = "2021"
publish = false

[dependencies]
dft = "=0.5.5"
libpulse-sys = "=1.23.0"
libpulse-simple-sys = "*"
libc = "=0.2.190"
