[package]
name = "gmodpatchtool"
version = "0.1.0"
edition = "2021"
publish = false

[dependencies]
blake3 = { version = "1", features = ["mmap", "rayon"] }
qbsdiff = "1"
zstd = "*"
serde_json = "1"
serde = { version = "1", features = ["derive"] }
clap = { version = "4", features = ["derive"] }
reqwest = { version = "0.12", default-features = false, features = ["json", "rustls-tls"] }
tokio = { version = "1", features = ["rt-multi-thread", "fs", "time"] }
rayon = "1"
dirs = "*"
dunce = "1"
keyvalues-serde = "*"
serde_path_to_error = "*"
thiserror = "*"
steamid = "*"
sysinfo = "*"
open = "*"
phf = { version = "*", features = ["macros"] }
tracing = "0.1"
tracing-subscriber = { version = "*", features = ["env-filter"] }
