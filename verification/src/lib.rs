//! Verified core of the ShellCanvas drive bridge.

pub mod bridge_control;
pub mod errno;
pub mod error;
pub mod exchange;
pub mod fuse;
pub mod inodes;
pub mod metadata;
pub mod mount_gate;
pub mod path;
pub mod path_table;
pub mod probe;
pub mod server;
pub mod text;
pub mod transfer;
pub mod windows;
pub mod windows_attributes;
pub mod windows_drives;
pub mod windows_handles;
pub mod windows_times;
pub mod wire;
