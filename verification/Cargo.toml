[package]
name = "fspy_shm"
version = "0.1.0"
edition = "2021"
publish = false

[dependencies]
base64 = "0.22"
libc = "0.2"
memmap2 = "0.9"
nix = { version = "0.30", features = ["mount", "sched", "user"] }
rustix = { version = "1", features = ["fs", "net"] }
tokio = { version = "1", features = ["net", "rt", "time"] }
uuid = { version = "1", features = ["v4"] }
