[package]
name = "sonny"
version = "0.1.0"
edition = "2021"
publish = false

[dependencies]
rustc_apfloat = "*"
astro-float = "*"
num-bigfloat = "*"
hound = "*"
open = "*"
colored = "*"
either = "*"
find_folder = "*"
rayon = "*"
rustfft = "*"
