[package]
name = "shellcanvas-drive-bridge"
version = "0.1.1"
edition = "2021"
publish = false

[dependencies]
anyhow = "=1.0.104"
fuser = "=0.18.0"
libc = "=0.2.191"
serde = { version = "=1.0.229", features = ["derive"] }
serde_json = "=1.0.154"
windows = { version = "=0.61.3", features = ["Win32_Foundation", "Win32_NetworkManagement_WNet", "Win32_Storage_FileSystem", "Win32_System_LibraryLoader"] }
windows-registry = "=0.100.0"
winfsp = "=0.13.2"
