[package]
name = "t10_dif_storage"
version = "0.1.0"
edition = "2021"
publish = false

[dependencies]
crc = "*"
libc = "*"
io-uring = "*"
clap = { version = "*", features = ["derive"] }
indicatif = "*"
memmap2 = "*"
bytemuck = { version = "*", features = ["derive"] }
