[package]
name = "ssh-transport"
version = "0.1.0"
edition = "2021"
publish = false

[dependencies]
aes = "=0.9.4"
cbc = "=0.2.1"
data-encoding = "=2.11.1"
md5 = "=0.8.1"
pkcs1 = "=0.8.0-rc.4"
pkcs8 = { version = "=0.11.0", features = ["encryption", "std"] }
rsa = "=0.10.0-rc.18"
russh = { version = "=0.63.3", default-features = false, features = ["ring", "rsa", "flate2"] }
russh-sftp = "=3.0.0"
sha2 = "=0.11.1"
thiserror = "=2.0.21"
tokio = { version = "=1.54.1", features = ["rt-multi-thread", "time", "sync", "io-util", "macros", "net"] }
