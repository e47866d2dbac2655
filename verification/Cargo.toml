[package]
name = "rencfs_winfsp"
version = "0.1.0"
edition = "2021"
publish = false

[dependencies]
async-trait = "=0.1.92"
shush-rs = "=0.1.11"
tokio = { version = "=1.54.1", features = ["rt-multi-thread", "net", "time"] }
tracing = "=0.1.44"
widestring = "=1.2.1"
windows-sys = { version = "=0.52.0", features = ["Win32_Foundation", "Win32_Security", "Win32_Security_Authorization", "Win32_Storage_FileSystem", "Win32_System_Threading", "Wdk_Storage_FileSystem"] }
winfsp_wrs = "=0.4.1"
