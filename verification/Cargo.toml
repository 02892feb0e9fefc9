[package]
name = "syscall_fuzz"
version = "0.1.0"
edition = "2021"
publish = false

[dependencies]
serde = { version = "1", features = ["derive"] }
serde_json = "1"
rand = "0.8"
libc = "0.2"
syscalls = "0.6"
encoding_rs = "0.8"
encoding_rs_io = "0.1"
structopt = "0.3"
sudo = "0.6"
anyhow = "1"
plotters = { version = "0.3", default-features = false, features = ["bitmap_backend", "bitmap_encoder", "histogram"] }
