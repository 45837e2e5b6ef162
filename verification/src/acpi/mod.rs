//! The firmware's tables, read from the bytes that hold them.
pub mod le;
pub mod tables;
pub mod madt;
