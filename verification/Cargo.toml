[package]
name = "listeners"
version = "0.3.0"
edition = "2021"
publish = false

[dependencies]
byteorder = "1"
libc = "0.2"
once_cell = "1"
rustix = { version = "1", features = ["fs"] }
bsd-kvm = "*"
