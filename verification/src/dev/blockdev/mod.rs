//! Block devices: what a disk offers, and partitions on top of one.
pub mod disk;
pub mod ramdisk;
pub mod partition;
pub mod gpt;
pub mod setup;
