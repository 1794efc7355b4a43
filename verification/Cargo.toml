[package]
name = "cuneiform"
version = "0.1.0"
edition = "2021"
publish = false

[dependencies]
hashbrown = "0.7"
heapless = "0.5"
lazy_static = "1.4"
proc-macro2 = "1.0"
quote = "1.0"
syn = "1.0"
walkdir = "2"
