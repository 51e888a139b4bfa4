[package]
name = "genie"
version = "0.1.0"
edition = "2021"
publish = false

[dependencies]
byteorder = "1"
flate2 = "1"
encoding_rs = "0.8"
chardet = "0.2"
sorted-vec = "*"
arrayvec = "0.7"
pelite = "*"
encoding_rs_io = "*"
jascpal = "*"
serde_json = "1"
thiserror = "1"
