//! The page table: sizes and modes, the entry format, and the table walk.
pub mod size;
pub mod entry;
pub mod table;
pub mod root;
pub mod adopt;
pub mod range;
pub mod swapping;
pub mod discover;
