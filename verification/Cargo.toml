[package]
name = "wurstenstein"
version = "0.1.0"
edition = "2021"
publish = false

[dependencies]
ab_glyph = "=0.2.32"
heapless = "=0.9.3"
libm = "=0.2.16"
oddio = "=0.7.4"
once_cell_no_std = "=0.2.1"
parry2d = "=0.31.1"
psp = "=0.3.14"
wincode = { version = "=0.6.3", features = ["derive"] }
