//! Writing a partition table onto a fresh disk.
pub mod crc;
pub mod structs;
pub mod init;
