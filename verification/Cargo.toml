[package]
name = "yubirs"
version = "0.1.0"
edition = "2021"
publish = false

[dependencies]
curl = { version = "0.4", default-features = false }
sodiumoxide = "0.2"
data-encoding = "2"
des = "0.8"
rand = "0.8"
pcsc = "2"
rpassword = "7"
