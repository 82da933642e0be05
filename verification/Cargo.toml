[package]
name = "ende"
version = "0.1.0"
edition = "2021"
publish = false

[dependencies]
array-init = "2"
bytemuck = "1"
embedded-io = "0.6"
flate2 = "1"
parse-display = "0.9"
serde = "1"
smallvec = "1"
thiserror = "1"
zstd = "0.13"
