[package]
name = "chroot_deploy"
version = "0.1.0"
edition = "2021"
publish = false

[dependencies]
anyhow = "1"
clap = { version = "4", features = ["derive"] }
fs4 = { version = "0.13", features = ["tokio"] }
futures-util = "0.3"
libc = "0.2"
tar = "0.4"
tokio = { version = "1", features = ["fs", "io-util", "macros", "process", "rt", "time"] }
xz2 = "0.1"
