//! Devices that the kernel drives.
pub mod blockdev;
pub mod virtio;
pub mod window;
