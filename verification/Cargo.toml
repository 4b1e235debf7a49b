[package]
name = "barp_tunnel"
version = "0.1.0"
edition = "2021"
publish = false

[dependencies]
android_logger = "0.15"
anyhow = "1"
grammers-tl-types = { version = "0.8", default-features = false, features = ["tl-mtproto", "impl-debug"] }
jni = "0.21"
libc = "0.2"
log = "0.4"
num-bigint = "0.4"
rand = "0.8"
rsa = "0.9"
sha1 = "0.10"
sha2 = "0.10"
tokio = { version = "1", features = ["full"] }
