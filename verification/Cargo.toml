[package]
name = "kernel_cache"
version = "0.1.0"
edition = "2021"
publish = false

[dependencies]
blake3 = { version = "1", default-features = false, features = ["std", "pure"] }
data-encoding = "2"
hex = "0.4"
rand = "0.8"
rustc-hash = "2"
serde_json = "1"
sha2 = "0.10"
static_assertions = "1"
windows = { version = "0.52", features = ["Win32_Foundation", "Win32_Security", "Win32_Storage_FileSystem"] }
